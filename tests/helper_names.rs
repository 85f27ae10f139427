use pure_annotator::helper::is_tslib_helper_name;

#[test]
fn test_tslib_helper_detection() {
    assert!(is_tslib_helper_name("__importStar"));
    assert!(is_tslib_helper_name("__importStar$1"));
    assert!(!is_tslib_helper_name("__importStar$abc"));
    assert!(!is_tslib_helper_name("custom_function"));
}

#[test]
fn all_four_helpers_are_recognised() {
    assert!(is_tslib_helper_name("__createBinding"));
    assert!(is_tslib_helper_name("__setModuleDefault"));
    assert!(is_tslib_helper_name("__importStar"));
    assert!(is_tslib_helper_name("__importDefault"));
    assert!(is_tslib_helper_name("__importDefault$12"));
}

#[test]
fn numeric_suffix_may_have_any_length_and_a_sign() {
    assert!(is_tslib_helper_name("__importStar$2147483647"));
    assert!(is_tslib_helper_name("__importStar$2147483648"));
    assert!(is_tslib_helper_name("__importStar$-2147483648"));
    assert!(is_tslib_helper_name("__importStar$-2147483649"));
    assert!(is_tslib_helper_name("__createBinding$123456789012345678901234567890"));
    assert!(is_tslib_helper_name("__importStar$+7"));
    assert!(is_tslib_helper_name("__importStar$-1"));
    assert!(!is_tslib_helper_name("__importStar$"));
    assert!(!is_tslib_helper_name("__importStar$-"));
    assert!(!is_tslib_helper_name("__importStar$1a"));
}

#[test]
fn other_shapes_are_not_helpers() {
    assert!(!is_tslib_helper_name(""));
    assert!(!is_tslib_helper_name("$1"));
    assert!(!is_tslib_helper_name("__importStar$1$2"));
    assert!(!is_tslib_helper_name("__importstar"));
    assert!(!is_tslib_helper_name("__importStarX$1"));
    assert!(!is_tslib_helper_name("x__importStar"));
}
