use ls_clone::identity::{group_display, owner_display, resolve_identity};
use ls_clone::permissions::format_permissions;
use ls_clone::size::{format_size, size_column};
use ls_clone::text::{
    contains_char, decimal_string, push_decimal, push_left_aligned, push_right_aligned,
    push_spaces, starts_with_char,
};

#[test]
fn permissions_of_common_modes() {
    assert_eq!(format_permissions(0o755, true), "drwxr-xr-x");
    assert_eq!(format_permissions(0o644, false), "-rw-r--r--");
    assert_eq!(format_permissions(0o777, false), "-rwxrwxrwx");
    assert_eq!(format_permissions(0, false), "----------");
    assert_eq!(format_permissions(0, true), "d---------");
    assert_eq!(format_permissions(0o421, false), "-r---w---x");
}

#[test]
fn permissions_ignore_bits_above_the_low_nine() {
    assert_eq!(format_permissions(0o4755, false), "-rwxr-xr-x");
    assert_eq!(format_permissions(0o100644, false), "-rw-r--r--");
    assert_eq!(format_permissions(0o40755, true), "drwxr-xr-x");
    assert_eq!(format_permissions(u32::MAX, false), "-rwxrwxrwx");
}

#[test]
fn permissions_match_each_bit_for_every_mode() {
    let letters = ['r', 'w', 'x'];
    for mode in 0u32..512 {
        for is_dir in [false, true] {
            let text: Vec<char> = format_permissions(mode, is_dir).chars().collect();
            assert_eq!(text.len(), 10);
            assert_eq!(text[0] == 'd', is_dir);
            assert!(text[0] == 'd' || text[0] == '-');
            for position in 1..10usize {
                let bit = 1u32 << (9 - position);
                let expected = if mode & bit != 0 { letters[(position - 1) % 3] } else { '-' };
                assert_eq!(text[position], expected);
            }
        }
    }
}

#[test]
fn human_sizes_at_the_thresholds() {
    assert_eq!(format_size(0), "0B");
    assert_eq!(format_size(999), "999B");
    assert_eq!(format_size(1_000), "1.0K");
    assert_eq!(format_size(999_949), "999.9K");
    assert_eq!(format_size(1_000_000), "1.0M");
    assert_eq!(format_size(999_949_999), "999.9M");
    assert_eq!(format_size(1_000_000_000), "1.0G");
}

#[test]
fn human_sizes_round_to_one_decimal() {
    assert_eq!(format_size(1_049), "1.0K");
    assert_eq!(format_size(1_050), "1.1K");
    assert_eq!(format_size(1_150), "1.2K");
    assert_eq!(format_size(1_500), "1.5K");
    assert_eq!(format_size(2_500_000), "2.5M");
    assert_eq!(format_size(1_234_567), "1.2M");
    assert_eq!(format_size(1_250_000), "1.3M");
    assert_eq!(format_size(7_890_000_000), "7.9G");
    assert_eq!(format_size(u64::MAX), "18446744073.7G");
}

#[test]
fn human_sizes_carry_into_the_next_thousand_just_below_a_threshold() {
    assert_eq!(format_size(999_950), "1000.0K");
    assert_eq!(format_size(999_999), "1000.0K");
    assert_eq!(format_size(999_950_000), "1000.0M");
    assert_eq!(format_size(999_999_999), "1000.0M");
}

#[test]
fn human_sizes_agree_with_floating_point_away_from_halves() {
    let samples: [u64; 12] = [
        1_000, 1_234, 4_096, 65_536, 999_949, 1_000_000, 1_048_576, 123_456_789, 999_949_999,
        1_000_000_000, 4_294_967_296, 1_099_511_627_776,
    ];
    for size in samples {
        let expected = if size >= 1_000_000_000 {
            format!("{:.1}G", size as f64 / 1_000_000_000.0)
        } else if size >= 1_000_000 {
            format!("{:.1}M", size as f64 / 1_000_000.0)
        } else {
            format!("{:.1}K", size as f64 / 1_000.0)
        };
        assert_eq!(format_size(size), expected);
    }
}

#[test]
fn size_column_of_files_and_directories() {
    assert_eq!(size_column(false, 4096, false), "4096");
    assert_eq!(size_column(false, 4096, true), "4.1K");
    assert_eq!(size_column(false, 0, false), "0");
    assert_eq!(size_column(true, 4096, false), "-");
    assert_eq!(size_column(true, 4096, true), "-");
    assert_eq!(size_column(true, 0, true), "-");
    assert_eq!(size_column(false, u64::MAX, false), "18446744073709551615");
}

#[test]
fn decimal_numerals() {
    assert_eq!(decimal_string(0), "0");
    assert_eq!(decimal_string(7), "7");
    assert_eq!(decimal_string(10), "10");
    assert_eq!(decimal_string(1_234_567_890), "1234567890");
    assert_eq!(decimal_string(u64::MAX), u64::MAX.to_string());
    let mut text = String::from("n=");
    push_decimal(&mut text, 405);
    assert_eq!(text, "n=405");
}

#[test]
fn alignment_pads_and_never_cuts() {
    let mut left = String::new();
    push_left_aligned(&mut left, "ab", 5);
    assert_eq!(left, "ab   ");
    let mut right = String::from(">");
    push_right_aligned(&mut right, "ab", 5);
    assert_eq!(right, ">   ab");
    let mut long = String::new();
    push_left_aligned(&mut long, "abcdefghij", 3);
    push_right_aligned(&mut long, "klmnopqrs", 8);
    assert_eq!(long, "abcdefghijklmnopqrs");
    let mut wide = String::new();
    push_right_aligned(&mut wide, "héllo", 8);
    assert_eq!(wide, "   héllo");
    let mut blanks = String::from("x");
    push_spaces(&mut blanks, 3);
    push_spaces(&mut blanks, 0);
    assert_eq!(blanks, "x   ");
}

#[test]
fn character_search() {
    assert!(contains_char("a/b", '/'));
    assert!(!contains_char("ab", '/'));
    assert!(!contains_char("", '/'));
    assert!(contains_char("naïve/", '/'));
    assert!(starts_with_char(".profile", '.'));
    assert!(!starts_with_char("a.b", '.'));
    assert!(!starts_with_char("", '.'));
}

#[test]
fn identity_falls_back_to_the_number() {
    assert_eq!(resolve_identity(1000, None), "1000");
    assert_eq!(resolve_identity(0, None), "0");
    assert_eq!(resolve_identity(u32::MAX, None), "4294967295");
    assert_eq!(resolve_identity(1000, Some(String::from("alice"))), "alice");
    assert_eq!(resolve_identity(1000, Some(String::new())), "1000");
}

#[test]
fn identity_lookup_never_comes_back_empty() {
    for id in [0u32, 1, 1000, 65_534, 4_000_000_123] {
        let owner = owner_display(id);
        let group = group_display(id);
        assert!(!owner.is_empty());
        assert!(!group.is_empty());
    }
}

#[test]
fn identity_lookup_of_an_unregistered_id_gives_the_number() {
    let id = 4_000_000_123u32;
    if users::get_user_by_uid(id).is_none() {
        assert_eq!(owner_display(id), "4000000123");
    }
    if users::get_group_by_gid(id).is_none() {
        assert_eq!(group_display(id), "4000000123");
    }
}

#[test]
fn identity_lookup_of_a_registered_id_gives_the_name() {
    if let Some(user) = users::get_user_by_uid(0) {
        if let Some(name) = user.name().to_str() {
            if !name.is_empty() {
                assert_eq!(owner_display(0), name);
            }
        }
    }
    if let Some(group) = users::get_group_by_gid(0) {
        if let Some(name) = group.name().to_str() {
            if !name.is_empty() {
                assert_eq!(group_display(0), name);
            }
        }
    }
}
