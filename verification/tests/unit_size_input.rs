use storage_ui::unit_size::SizeUnit;

#[test]
fn test_unit_index_roundtrip() {
    for unit in [
        SizeUnit::Bytes,
        SizeUnit::Kilobytes,
        SizeUnit::Megabytes,
        SizeUnit::Gigabytes,
        SizeUnit::Terabytes,
    ] {
        let idx = unit.to_index();
        let recovered = SizeUnit::from_index(idx);
        assert_eq!(unit, recovered);
    }
}

#[test]
fn test_auto_select() {
    assert_eq!(SizeUnit::auto_select(512), SizeUnit::Bytes);
    assert_eq!(SizeUnit::auto_select(2048), SizeUnit::Kilobytes);
    assert_eq!(SizeUnit::auto_select(5 * 1024 * 1024), SizeUnit::Megabytes);
    assert_eq!(
        SizeUnit::auto_select(3 * 1024 * 1024 * 1024),
        SizeUnit::Gigabytes
    );
    assert_eq!(
        SizeUnit::auto_select(2 * 1024u64 * 1024 * 1024 * 1024),
        SizeUnit::Terabytes
    );
}

#[test]
fn test_labels() {
    let labels = SizeUnit::labels();
    assert_eq!(labels.len(), 5);
    assert_eq!(labels[0], "B");
    assert_eq!(labels[1], "KB");
    assert_eq!(labels[2], "MB");
    assert_eq!(labels[3], "GB");
    assert_eq!(labels[4], "TB");
}

#[test]
fn unit_labels_follow_units() {
    assert_eq!(SizeUnit::Bytes.label(), "B");
    assert_eq!(SizeUnit::Terabytes.label(), "TB");
    for idx in 0..5usize {
        assert_eq!(SizeUnit::labels()[idx], SizeUnit::from_index(idx).label());
    }
}

#[test]
fn unit_index_past_the_list_selects_megabytes() {
    assert_eq!(SizeUnit::from_index(5), SizeUnit::Megabytes);
    assert_eq!(SizeUnit::from_index(usize::MAX), SizeUnit::Megabytes);
}

#[test]
fn auto_select_boundaries() {
    assert_eq!(SizeUnit::auto_select(0), SizeUnit::Bytes);
    assert_eq!(SizeUnit::auto_select(1023), SizeUnit::Bytes);
    assert_eq!(SizeUnit::auto_select(1024), SizeUnit::Kilobytes);
    assert_eq!(SizeUnit::auto_select(1024 * 1024 - 1), SizeUnit::Kilobytes);
    assert_eq!(SizeUnit::auto_select(1024 * 1024), SizeUnit::Megabytes);
    assert_eq!(SizeUnit::auto_select(1024u64.pow(4)), SizeUnit::Terabytes);
    assert_eq!(SizeUnit::auto_select(u64::MAX), SizeUnit::Terabytes);
}
