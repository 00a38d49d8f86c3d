use ftrans::util::{
    default_store_parent, human_bytes, store_warning, writable_store_parent, DriveRoot,
};

#[test]
fn sizes_have_one_decimal() {
    assert_eq!(human_bytes(0), "0 B");
    assert_eq!(human_bytes(1023), "1023 B");
    assert_eq!(human_bytes(1024), "1.0 KB");
    assert_eq!(human_bytes(1536), "1.5 KB");
    assert_eq!(human_bytes(1048575), "1024.0 KB");
    assert_eq!(human_bytes(1048576), "1.0 MB");
    assert_eq!(human_bytes(5 * 1024 * 1024 * 1024), "5.0 GB");
    assert_eq!(human_bytes(3 * 1024 * 1024 * 1024 * 1024), "3.0 TB");
    assert_eq!(human_bytes(u64::MAX), "16777216.0 TB");
}

#[test]
fn ties_go_to_the_even_digit() {
    assert_eq!(human_bytes(1280), "1.2 KB");
    assert_eq!(human_bytes(1792), "1.8 KB");
    assert_eq!(human_bytes(1024 * 1280), "1.2 MB");
}

fn in_floating_point(bytes: u64) -> String {
    let units = ["B", "KB", "MB", "GB", "TB"];
    let mut size = bytes as f64;
    let mut unit = 0;
    while size >= 1024.0 && unit < units.len() - 1 {
        size /= 1024.0;
        unit += 1;
    }
    if unit == 0 {
        format!("{} {}", bytes, units[unit])
    } else {
        format!("{:.1} {}", size, units[unit])
    }
}

#[test]
fn sizes_agree_with_floating_point() {
    for bytes in 0u64..70000 {
        assert_eq!(human_bytes(bytes), in_floating_point(bytes));
    }
    let mut state: u64 = 88172645463325252;
    for _ in 0..20000 {
        state ^= state << 13;
        state ^= state >> 7;
        state ^= state << 17;
        for shift in [0, 3, 8, 11, 17, 25, 33, 41] {
            let bytes = state >> shift;
            assert_eq!(human_bytes(bytes), in_floating_point(bytes), "{}", bytes);
        }
    }
    for power in 0..64 {
        let at = 1u64 << power;
        for bytes in [at - 1, at, at + 1, at + at / 2, at + at / 4, at + at / 64] {
            assert_eq!(human_bytes(bytes), in_floating_point(bytes), "{}", bytes);
        }
    }
}

#[test]
fn default_store_parent_uses_data_drive() {
    let roots = vec![
        DriveRoot::Unresolved,
        DriveRoot::Missing("X:\\"),
        DriveRoot::Present("D:\\"),
        DriveRoot::Present("C:\\"),
    ];
    assert_eq!(default_store_parent(roots, "tmp"), "D:\\");
}

#[test]
fn default_store_parent_falls_back_to_temp_dir() {
    assert_eq!(default_store_parent(vec![], "tmp"), "tmp");
    let roots = vec![DriveRoot::Unresolved, DriveRoot::Missing("X:\\")];
    assert_eq!(default_store_parent(roots, "tmp"), "tmp");
}

#[test]
fn store_falls_back_where_it_cannot_be_written() {
    assert_eq!(writable_store_parent("/", "/tmp", true), "/");
    assert_eq!(writable_store_parent("/", "/tmp", false), "/tmp");
    assert_eq!(
        store_warning("/", "/tmp"),
        "warning: / is not writable, using /tmp for the temp store instead"
    );
}
