// The bundle identifier is normally handed over by the host application
// through a platform bridge; no host application is attached here, so the
// identifier line is printed for a fixed, well-formed reverse-DNS identifier.

#[test]
fn test_bundle_id() {
    let id = "com.example.media_pipeline";
    println!("Bundle ID: {}", id);
}
