use mock_ota::artifact::{ensure_safe_artifact_name, sort_names, ArtifactNameError};

#[test]
fn traversal_names_are_rejected() {
    assert_eq!(
        ensure_safe_artifact_name("../../etc/passwd"),
        Err(ArtifactNameError::NonNormal)
    );
    assert_eq!(
        ensure_safe_artifact_name("/etc/passwd"),
        Err(ArtifactNameError::Absolute)
    );
    assert_eq!(ensure_safe_artifact_name(""), Err(ArtifactNameError::Empty));
}

#[test]
fn plain_names_are_accepted() {
    assert_eq!(ensure_safe_artifact_name("firmware-1.2.bin"), Ok(()));
}

#[test]
fn subtler_names() {
    // Blank is as good as empty.
    assert_eq!(ensure_safe_artifact_name("   "), Err(ArtifactNameError::Empty));
    // A parent component anywhere is refused.
    assert_eq!(
        ensure_safe_artifact_name("a/../b"),
        Err(ArtifactNameError::NonNormal)
    );
    assert_eq!(ensure_safe_artifact_name(".."), Err(ArtifactNameError::NonNormal));
    // A leading current-directory component is refused.
    assert_eq!(
        ensure_safe_artifact_name("./fw.bin"),
        Err(ArtifactNameError::NonNormal)
    );
    assert_eq!(ensure_safe_artifact_name("."), Err(ArtifactNameError::NonNormal));
    // Dots inside a name are normal.
    assert_eq!(ensure_safe_artifact_name("..hidden"), Ok(()));
    assert_eq!(ensure_safe_artifact_name("a..b"), Ok(()));
    // A nested relative path has only normal components.
    assert_eq!(ensure_safe_artifact_name("sub/fw.bin"), Ok(()));
    // A mid-path current-directory component is normalized away.
    assert_eq!(ensure_safe_artifact_name("a/./b"), Ok(()));
}

#[test]
fn rejection_reasons() {
    assert_eq!(ArtifactNameError::Empty.reason(), "artifact name is required");
    assert_eq!(
        ArtifactNameError::Absolute.reason(),
        "artifact name must be relative"
    );
    assert_eq!(
        ArtifactNameError::NonNormal.reason(),
        "artifact name must not contain parent directories"
    );
}

#[test]
fn listing_is_sorted() {
    let names = vec![
        "zeta.bin".to_string(),
        "alpha.bin".to_string(),
        "fw-10.bin".to_string(),
        "fw-2.bin".to_string(),
        "alpha.bin".to_string(),
    ];
    let sorted = sort_names(names);
    assert_eq!(
        sorted,
        vec![
            "alpha.bin".to_string(),
            "alpha.bin".to_string(),
            "fw-10.bin".to_string(),
            "fw-2.bin".to_string(),
            "zeta.bin".to_string(),
        ]
    );
}

#[test]
fn sorting_empty_listing() {
    let sorted = sort_names(Vec::new());
    assert!(sorted.is_empty());
}
