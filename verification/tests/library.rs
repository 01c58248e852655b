//! The library as a whole.
use agentscope::VERSION;

#[test]
fn version_matches_package_version() {
    assert_eq!(VERSION, "0.1.0");
}
