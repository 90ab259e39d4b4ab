//! Cover-art bookkeeping: which cover-art identifiers an owner's media files
//! carry, with the magic placeholder cover excluded.
//!
//! An owner — an album, an artist, a playlist — is tied to media files by a
//! relation table; each media file may carry a cover-art identifier.  The
//! storage layer hands the fetched rows in as plain pairs, and the fan-out
//! join below aggregates them per owner.

use vstd::prelude::*;

verus! {

/// A relation row: the owner's identifier and the related media file's.
pub type RelationRow = (i32, i32);

/// A media-file row: the file's identifier and its cover art, if any.
pub type FileRow = (i32, Option<i32>);

/// The cover-art identifiers of the media files related to `owner`, the
/// magic placeholder excluded.
pub open spec fn owner_cover_ids(
    owner: i32,
    relations: Seq<RelationRow>,
    files: Seq<FileRow>,
    magic: i32,
) -> Set<i32> {
    Set::new(
        |c: i32|
            c != magic && exists|i: int, j: int|
                0 <= i < relations.len() && 0 <= j < files.len() && relations[i].0 == owner
                    && files[j].0 == relations[i].1 && files[j].1 == Some(c),
    )
}

/// The same set drawn from the first `n` relation rows only.
pub open spec fn owner_cover_ids_upto(
    owner: i32,
    relations: Seq<RelationRow>,
    files: Seq<FileRow>,
    magic: i32,
    n: int,
) -> Set<i32> {
    owner_cover_ids(owner, relations.take(n), files, magic)
}

/// File identifiers are unique: they are the table's primary key.
pub open spec fn unique_file_ids(files: Seq<FileRow>) -> bool {
    forall|i: int, j: int|
        0 <= i < files.len() && 0 <= j < files.len() && files[i].0 == files[j].0 ==> i == j
}

/// The cover field of the file row with identifier `id`, when such a row
/// exists.
fn find_cover(files: &Vec<FileRow>, id: i32) -> (r: Option<Option<i32>>)
    ensures
        (match r {
            Some(c) => exists|j: int|
                0 <= j < files@.len() && files@[j].0 == id && files@[j].1 == c,
            None => forall|j: int| 0 <= j < files@.len() ==> files@[j].0 != id,
        }),
{
    let mut j: usize = 0;
    while j < files.len()
        invariant
            j <= files@.len(),
            forall|i: int| 0 <= i < j ==> files@[i].0 != id,
        decreases files@.len() - j,
    {
        if files[j].0 == id {
            return Some(files[j].1);
        }
        j = j + 1;
    }
    None
}

fn contains_id(v: &Vec<i32>, x: i32) -> (r: bool)
    ensures
        r == v@.contains(x),
{
    let mut j: usize = 0;
    while j < v.len()
        invariant
            j <= v@.len(),
            forall|i: int| 0 <= i < j ==> v@[i] != x,
        decreases v@.len() - j,
    {
        if v[j] == x {
            return true;
        }
        j = j + 1;
    }
    false
}

/// The distinct cover-art identifiers of one owner's media files, the magic
/// placeholder excluded: exactly the members of `owner_cover_ids`, each once.
pub fn entity_cover_ids(
    owner: i32,
    relations: &Vec<RelationRow>,
    files: &Vec<FileRow>,
    magic: i32,
) -> (r: Vec<i32>)
    requires
        unique_file_ids(files@),
    ensures
        r@.no_duplicates(),
        forall|k: int|
            0 <= k < r@.len() ==> owner_cover_ids(owner, relations@, files@, magic).contains(
                r@[k],
            ),
        forall|c: i32|
            owner_cover_ids(owner, relations@, files@, magic).contains(c) ==> r@.contains(c),
{
    let mut r: Vec<i32> = Vec::new();
    let mut i: usize = 0;
    while i < relations.len()
        invariant
            i <= relations@.len(),
            unique_file_ids(files@),
            r@.no_duplicates(),
            forall|k: int|
                0 <= k < r@.len() ==> owner_cover_ids(owner, relations@, files@, magic).contains(
                    r@[k],
                ),
            forall|c: i32|
                owner_cover_ids_upto(owner, relations@, files@, magic, i as int).contains(c)
                    ==> r@.contains(c),
        decreases relations@.len() - i,
    {
        let rel = relations[i];
        let ghost old_r = r@;
        let mut fc: Option<Option<i32>> = None;
        if rel.0 == owner {
            fc = find_cover(files, rel.1);
            match fc {
                Some(Some(c)) => {
                    if c != magic && !contains_id(&r, c) {
                        r.push(c);
                    }
                },
                _ => {},
            }
        }
        i = i + 1;
        proof {
            assert forall|c: i32|
                owner_cover_ids_upto(owner, relations@, files@, magic, i as int).contains(
                    c,
                ) implies r@.contains(c) by {
                let (wi, wj): (int, int) = choose|wi: int, wj: int|
                    0 <= wi < relations@.take(i as int).len() && 0 <= wj < files@.len()
                        && relations@.take(i as int)[wi].0 == owner && files@[wj].0 == relations@.take(
                        i as int,
                    )[wi].1 && files@[wj].1 == Some(c);
                if wi < i - 1 {
                    assert(relations@.take(i as int)[wi] == relations@.take(i - 1)[wi]);
                    assert(owner_cover_ids_upto(owner, relations@, files@, magic, i - 1).contains(
                        c,
                    ));
                    assert(old_r.contains(c));
                    let k = choose|k: int| 0 <= k < old_r.len() && old_r[k] == c;
                    assert(0 <= k < r@.len() && r@[k] == c);
                } else {
                    assert(relations@.take(i as int)[wi] == rel);
                    assert(rel.0 == owner);
                    match fc {
                        Some(cov) => {
                            let j2 = choose|j2: int|
                                0 <= j2 < files@.len() && files@[j2].0 == rel.1 && files@[j2].1
                                    == cov;
                            assert(files@[j2].0 == files@[wj].0);
                            assert(j2 == wj);
                            assert(cov == Some(c));
                            if old_r.contains(c) {
                                let k = choose|k: int| 0 <= k < old_r.len() && old_r[k] == c;
                                assert(0 <= k < r@.len() && r@[k] == c);
                            } else {
                                assert(r@ == old_r.push(c));
                                assert(r@[r@.len() - 1] == c);
                            }
                        },
                        None => {
                            assert(files@[wj].0 == rel.1);
                            assert(false);
                        },
                    }
                }
            }
        }
    }
    proof {
        assert(relations@.take(relations@.len() as int) =~= relations@);
    }
    r
}

/// The fan-out join itself: for every owner asked about, in the order asked,
/// the distinct cover-art identifiers of its media files, the magic
/// placeholder excluded.
pub fn cover_ids_by_owner(
    owners: &Vec<i32>,
    relations: &Vec<RelationRow>,
    files: &Vec<FileRow>,
    magic: i32,
) -> (r: Vec<(i32, Vec<i32>)>)
    requires
        unique_file_ids(files@),
    ensures
        r@.len() == owners@.len(),
        forall|k: int| 0 <= k < r@.len() ==> r@[k].0 == owners@[k],
        forall|k: int, p: int|
            0 <= k < r@.len() && 0 <= p < r@[k].1@.len() ==> owner_cover_ids(
                owners@[k],
                relations@,
                files@,
                magic,
            ).contains(#[trigger] r@[k].1@[p]),
        forall|k: int, c: i32|
            0 <= k < r@.len() && #[trigger] owner_cover_ids(
                owners@[k],
                relations@,
                files@,
                magic,
            ).contains(c) ==> r@[k].1@.contains(c),
        forall|k: int| 0 <= k < r@.len() ==> r@[k].1@.no_duplicates(),
{
    let mut r: Vec<(i32, Vec<i32>)> = Vec::new();
    let mut k: usize = 0;
    while k < owners.len()
        invariant
            k <= owners@.len(),
            unique_file_ids(files@),
            r@.len() == k,
            forall|q: int| 0 <= q < k ==> r@[q].0 == owners@[q],
            forall|q: int, p: int|
                0 <= q < k && 0 <= p < r@[q].1@.len() ==> owner_cover_ids(
                    owners@[q],
                    relations@,
                    files@,
                    magic,
                ).contains(#[trigger] r@[q].1@[p]),
            forall|q: int, c: i32|
                0 <= q < k && #[trigger] owner_cover_ids(
                    owners@[q],
                    relations@,
                    files@,
                    magic,
                ).contains(c) ==> r@[q].1@.contains(c),
            forall|q: int| 0 <= q < k ==> r@[q].1@.no_duplicates(),
        decreases owners@.len() - k,
    {
        let ids = entity_cover_ids(owners[k], relations, files, magic);
        r.push((owners[k], ids));
        k = k + 1;
    }
    r
}

} // verus!
