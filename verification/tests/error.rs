use hopframe::error::Error;

#[test]
fn errors_are_told_apart_by_kind_and_by_what_they_say() {
    let all = [
        Error::ProcessAccessError("a".to_string()),
        Error::ExecutablePathError("a".to_string()),
        Error::MemoryMapError("a".to_string()),
        Error::NoMemoryMapping,
        Error::PlatformError("a".to_string()),
        Error::NormalizationUnderflow { absolute: 1, offset: 2 },
    ];
    for (i, a) in all.iter().enumerate() {
        for (j, b) in all.iter().enumerate() {
            assert_eq!(a == b, i == j);
        }
    }
    assert_ne!(Error::MemoryMapError("a".to_string()), Error::MemoryMapError("b".to_string()));
    assert_ne!(
        Error::NormalizationUnderflow { absolute: 1, offset: 2 },
        Error::NormalizationUnderflow { absolute: 2, offset: 1 }
    );
}

#[test]
fn errors_print_their_kind() {
    assert_eq!(format!("{:?}", Error::NoMemoryMapping), "NoMemoryMapping");
    assert_eq!(
        format!("{:?}", Error::ProcessAccessError("denied".to_string())),
        "ProcessAccessError(\"denied\")"
    );
}
