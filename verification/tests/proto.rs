use pvault::proto::{spec_version, ErrorCode, Version};

#[test]
fn spec_version_matches_crate_version() {
    assert_eq!(spec_version().to_string(), "1.0.0");
}

#[test]
fn only_major_version_gates_compatibility() {
    let ours = Version {
        major: 1,
        minor: 4,
        patch: 0,
    };
    assert!(ours.is_compatible_with(&Version {
        major: 1,
        minor: 0,
        patch: 9
    }));
    assert!(!ours.is_compatible_with(&Version {
        major: 2,
        minor: 4,
        patch: 0
    }));
}

#[test]
fn error_codes_keep_their_numbers() {
    for n in 0..12 {
        assert_eq!(ErrorCode::from_number(n).unwrap().number(), n);
    }
    assert_eq!(ErrorCode::from_number(12), None);
    assert_eq!(ErrorCode::from_number(-1), None);
}

#[test]
fn versions_read_as_dotted_numbers() {
    let v = Version {
        major: 12,
        minor: 0,
        patch: 305,
    };
    assert_eq!(v.to_string(), "12.0.305");
}
