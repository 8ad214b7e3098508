use gamespace::args::{cleanup_fragment, should_cleanup_orphaned_directory, CLEANUP_ARGUMENT};
use gamespace::messages::{ambiguity_message, message, removal_message, unsafe_message};
use gamespace::registry::get_game_root_directories;
use gamespace::scan::Notice;
use gamespace::usage::{
    format_bytes, human_size, labelled, report_lines, scaled_hundredths, unit_index, unit_name,
    usage_report, used_space,
};

fn strings(items: &[&str]) -> Vec<String> {
    items.iter().map(|s| s.to_string()).collect()
}

#[test]
fn cleanup_flag_is_detected() {
    assert_eq!(CLEANUP_ARGUMENT, "--cleanup");
    assert!(should_cleanup_orphaned_directory(&strings(&["--cleanup", "Portal"])));
    assert!(should_cleanup_orphaned_directory(&strings(&["Portal", "--cleanup"])));
    assert!(should_cleanup_orphaned_directory(&strings(&["--cleanup"])));
    assert!(!should_cleanup_orphaned_directory(&strings(&["Portal"])));
    assert!(!should_cleanup_orphaned_directory(&strings(&["--Cleanup", "-cleanup"])));
    assert!(!should_cleanup_orphaned_directory(&Vec::new()));
}

#[test]
fn fragment_joins_the_other_arguments() {
    assert_eq!(cleanup_fragment(&strings(&["--cleanup", "Half-Life", "2"])), "Half-Life 2");
    assert_eq!(cleanup_fragment(&strings(&["Half-Life", "--cleanup", "2"])), "Half-Life 2");
    assert_eq!(cleanup_fragment(&strings(&["--cleanup", "Portal"])), "Portal");
    assert_eq!(cleanup_fragment(&strings(&["--cleanup"])), "");
    assert_eq!(cleanup_fragment(&strings(&["--cleanup", "", "x"])), " x");
    assert_eq!(cleanup_fragment(&strings(&["--cleanup", "a", "--cleanup", "b", "c"])), "a b c");
    assert_eq!(cleanup_fragment(&Vec::new()), "");
}

#[test]
fn registry_lists_the_roots_in_order() {
    assert_eq!(
        get_game_root_directories(),
        vec![
            "D:\\Battle_Net",
            "D:\\EA_Games",
            "D:\\EpicGames",
            "D:\\GOG_Galaxy\\Games",
            "D:\\SteamLibrary\\steamapps\\common",
            "D:\\Ubisoft",
            "D:\\XboxGames",
        ]
    );
}

#[test]
fn used_space_is_the_difference() {
    assert_eq!(used_space(1000, 250), Some(750));
    assert_eq!(used_space(1000, 1000), Some(0));
    assert_eq!(used_space(0, 0), Some(0));
    assert_eq!(used_space(u64::MAX, 0), Some(u64::MAX));
    assert_eq!(used_space(10, 11), None);
}

#[test]
fn human_size_uses_binary_units() {
    assert_eq!(human_size(0), "0 B");
    assert_eq!(human_size(1023), "1023 B");
    assert_eq!(human_size(1024), "1 KiB");
    assert_eq!(human_size(1536), "1.50 KiB");
    assert_eq!(human_size(1024 * 1024), "1 MiB");
    assert_eq!(human_size(5 * 1024 * 1024 * 1024 + 512 * 1024 * 1024), "5.50 GiB");
}

#[test]
fn labelled_appends_the_value() {
    assert_eq!(labelled("Size: ", "1 KiB"), "Size: 1 KiB");
    assert_eq!(labelled("", ""), "");
}

#[test]
fn report_lines_lay_out_the_report() {
    assert_eq!(
        report_lines("4 GiB", "3 GiB", "1 GiB"),
        vec![
            "".to_string(),
            "         Total Space: 4 GiB".to_string(),
            "          Used Space: 3 GiB".to_string(),
            "Available Free Space: 1 GiB".to_string(),
            "".to_string(),
        ]
    );
}

#[test]
fn usage_report_renders_all_three_sizes() {
    let lines = usage_report(4096, 1024).unwrap();
    assert_eq!(
        lines,
        vec![
            "".to_string(),
            "         Total Space: 4 KiB".to_string(),
            "          Used Space: 3 KiB".to_string(),
            "Available Free Space: 1 KiB".to_string(),
            "".to_string(),
        ]
    );
    assert_eq!(usage_report(1024, 4096), None);
    assert!(usage_report(0, 0).is_some());
}

#[test]
fn format_bytes_below_one_kibibyte() {
    assert_eq!(format_bytes(0), "0.00 B");
    assert_eq!(format_bytes(9), "9.00 B");
    assert_eq!(format_bytes(512), "512.00 B");
    assert_eq!(format_bytes(1023), "1023.00 B");
}

#[test]
fn format_bytes_scales_by_1024() {
    assert_eq!(format_bytes(1024), "1.00 KB");
    assert_eq!(format_bytes(1536), "1.50 KB");
    assert_eq!(format_bytes(1048576), "1.00 MB");
    assert_eq!(format_bytes(1073741824), "1.00 GB");
    assert_eq!(format_bytes(1099511627776), "1.00 TB");
    assert_eq!(format_bytes(5 * 1073741824 + 268435456), "5.25 GB");
}

#[test]
fn format_bytes_stops_at_terabytes() {
    assert_eq!(format_bytes(1024 * 1099511627776), "1024.00 TB");
    assert_eq!(format_bytes(u64::MAX), "16777216.00 TB");
}

#[test]
fn format_bytes_rounds_to_the_nearest_hundredth() {
    assert_eq!(format_bytes(1029), "1.00 KB");
    assert_eq!(format_bytes(1030), "1.01 KB");
    assert_eq!(format_bytes(1075), "1.05 KB");
    assert_eq!(format_bytes(2047), "2.00 KB");
    assert_eq!(format_bytes(1048575), "1024.00 KB");
}

#[test]
fn units_follow_the_size() {
    assert_eq!(unit_index(0), 0);
    assert_eq!(unit_index(1023), 0);
    assert_eq!(unit_index(1024), 1);
    assert_eq!(unit_index(1048575), 1);
    assert_eq!(unit_index(1048576), 2);
    assert_eq!(unit_index(1073741824), 3);
    assert_eq!(unit_index(1099511627776), 4);
    assert_eq!(unit_index(u64::MAX), 4);
    assert_eq!(unit_name(0), "B");
    assert_eq!(unit_name(1), "KB");
    assert_eq!(unit_name(2), "MB");
    assert_eq!(unit_name(3), "GB");
    assert_eq!(unit_name(4), "TB");
    assert_eq!(scaled_hundredths(1536), 150);
    assert_eq!(scaled_hundredths(1023), 102300);
    assert_eq!(scaled_hundredths(u64::MAX), 1677721600);
}

#[test]
fn messages_name_their_subjects() {
    assert_eq!(
        ambiguity_message("Doom", "D:\\EpicGames"),
        "Found more than 1 directory matching Doom in D:\\EpicGames..."
    );
    assert_eq!(
        unsafe_message("D:\\EpicGames\\Doom"),
        "Some executable files were found. The directory D:\\EpicGames\\Doom may not be safe to remove..."
    );
    assert_eq!(removal_message("D:\\EpicGames\\Doom"), "Removing D:\\EpicGames\\Doom directory...");
}

#[test]
fn message_goes_by_the_notice() {
    assert_eq!(message(Notice::Silent, "f", "r", "t"), None);
    assert_eq!(
        message(Notice::Ambiguous, "f", "r", "t"),
        Some("Found more than 1 directory matching f in r...".to_string())
    );
    assert_eq!(
        message(Notice::NotSafe, "f", "r", "t"),
        Some("Some executable files were found. The directory t may not be safe to remove...".to_string())
    );
    assert_eq!(message(Notice::Removing, "f", "r", "t"), Some("Removing t directory...".to_string()));
}
