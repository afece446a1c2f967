use modality_can::filter::CanFilter;

#[test]
fn can_filters() {
    assert!(CanFilter::from_str("").is_err());
    assert!(CanFilter::from_str("11").is_err());
    assert!(CanFilter::from_str("11:").is_err());
    assert!(CanFilter::from_str("11:22:33").is_err());

    assert_eq!(
        CanFilter::from_str("1:2"),
        Ok(CanFilter {
            inverted: false,
            id: 1,
            mask: 2,
        })
    );
    assert_eq!(
        CanFilter::from_str("22:33:!"),
        Ok(CanFilter {
            inverted: true,
            id: 22,
            mask: 33,
        })
    );

    assert_eq!(
        CanFilter::from_str("0x001:0x002"),
        Ok(CanFilter {
            inverted: false,
            id: 0x001,
            mask: 0x002,
        })
    );
    assert_eq!(
        CanFilter::from_str("0x022:0x033:!"),
        Ok(CanFilter {
            inverted: true,
            id: 0x022,
            mask: 0x033,
        })
    );
}

#[test]
fn can_filter_error_names_the_input() {
    let e = CanFilter::from_str("nope").unwrap_err();
    assert_eq!(
        e,
        "Invalid CAN filter 'nope'. Expected format is '<id>:<mask>[:!]'."
    );
}

#[test]
fn can_filter_trims_and_mixes_bases() {
    assert_eq!(
        CanFilter::from_str("  0x10:32  "),
        Ok(CanFilter {
            inverted: false,
            id: 16,
            mask: 32,
        })
    );
}
