use grub_uki::{get_info_from_file_name, BuildToken, NamePattern, UKIInfo};
use regex::Regex;

const ID: &str = "abcdefabcdefabcdefabcdefabcdefab";
const ZEROS: &str = "00000000000000000000000000000000";

fn parse(file_name: &str, build: Option<BuildToken>) -> Option<UKIInfo> {
    let pattern = build.map(|build| NamePattern {
        prefix: "uki-".to_string(),
        suffix: ".efi".to_string(),
        build,
    });
    get_info_from_file_name(&"uki-".to_string(), &".efi".to_string(), file_name, pattern)
}

fn fields(info: &UKIInfo) -> (&str, &str, &str) {
    (info.name.as_str(), info.machine_id.as_str(), info.build_id.as_str())
}

#[test]
fn recovers_the_three_fields() {
    let file = format!("uki-linux-{ID}-5_15_0.efi");
    let info = parse(&file, None).expect("parses");
    assert_eq!(fields(&info), ("linux", ID, "5_15_0"));
}

#[test]
fn round_trip_over_several_triples() {
    let cases = [
        ("a", ZEROS, ""),
        ("linux-lts", "0123456789abcdefghijklmnopqrstuv", "rolling"),
        ("-", ID, "ABC_123"),
        ("arch-zen-", ID, "x"),
    ];
    for (name, id, build) in cases {
        let file = format!("uki-{name}-{id}-{build}.efi");
        let info = parse(&file, None).expect("parses");
        assert_eq!(fields(&info), (name, id, build));
    }
}

#[test]
fn name_stops_before_the_machine_id() {
    let file = format!("uki-foo-bar-{ZEROS}-v1_2.efi");
    let info = parse(&file, None).expect("parses");
    assert_eq!(fields(&info), ("foo-bar", ZEROS, "v1_2"));
}

#[test]
fn dotted_build_segment_is_not_in_the_class() {
    let file = format!("uki-foo-bar-{ZEROS}-v1.2.efi");
    assert_eq!(parse(&file, None), None);
}

#[test]
fn empty_build_segment_is_accepted() {
    let file = format!("uki-linux-{ID}-.efi");
    let info = parse(&file, None).expect("parses");
    assert_eq!(fields(&info), ("linux", ID, ""));
}

#[test]
fn strict_mode_accepts_rolling_only() {
    let rolling = format!("uki-linux-{ID}-rolling.efi");
    let info = parse(&rolling, Some(BuildToken::Rolling)).expect("parses");
    assert_eq!(fields(&info), ("linux", ID, "rolling"));
    for build in ["v1", "rollingx", "Rolling", "", "rollin"] {
        let file = format!("uki-linux-{ID}-{build}.efi");
        assert_eq!(parse(&file, Some(BuildToken::Rolling)), None, "{build}");
        assert!(parse(&file, Some(BuildToken::Word)).is_some(), "{build}");
    }
}

#[test]
fn malformed_names_give_none() {
    let short_id = &ID[..31];
    let cases = [
        String::new(),
        "notes.txt".to_string(),
        "uki-.efi".to_string(),
        "ü".to_string(),
        format!("uki-linux-{short_id}-1.efi"),
        format!("uki-linux-{ID}a-1.efi"),
        format!("uki-Linux-{ID}-1.efi"),
        format!("uki-li_nux-{ID}-1.efi"),
        format!("uki-{ID}-1.efi"),
        format!("uki-linux-{}-1.efi", ID.to_uppercase()),
        format!("xuki-linux-{ID}-1.efi"),
        format!("uki-linux-{ID}-1.efi.bak"),
        format!("uki-linux-{ID}-1.EFI"),
        format!("linux-{ID}-1.efi"),
    ];
    for file in cases.iter() {
        assert_eq!(parse(file, None), None, "{file}");
    }
}

#[test]
fn prefix_and_suffix_are_literal_text() {
    let prefix = "a.b+".to_string();
    let suffix = "(x)".to_string();
    let file = format!("a.b+linux-{ID}-1(x)");
    let info = get_info_from_file_name(&prefix, &suffix, &file, None).expect("parses");
    assert_eq!(fields(&info), ("linux", ID, "1"));
    let other = format!("aXb+linux-{ID}-1(x)");
    assert_eq!(get_info_from_file_name(&prefix, &suffix, &other, None), None);
}

#[test]
fn agrees_with_an_anchored_regular_expression() {
    let re = Regex::new(r"^uki-([a-z\-]+?)-([a-z0-9]{32})-([0-9A-Za-z_]*)\.efi$").unwrap();
    let samples = [
        format!("uki-linux-{ID}-5_15_0.efi"),
        format!("uki-foo-bar-{ZEROS}-v1_2.efi"),
        format!("uki-foo-bar-{ZEROS}-v1.2.efi"),
        format!("uki-a-{ZEROS}-{ID}-x.efi"),
        format!("uki-a-{ZEROS}-b-{ID}-x.efi"),
        format!("uki--{ID}--{ID}-.efi"),
        format!("uki-linux-{ID}-.efi"),
        "notes.txt".to_string(),
    ];
    for file in samples.iter() {
        let expected = re.captures(file).map(|c| {
            (c[1].to_string(), c[2].to_string(), c[3].to_string())
        });
        let got = parse(file, None)
            .map(|i| (i.name.clone(), i.machine_id.clone(), i.build_id.clone()));
        assert_eq!(got, expected, "{file}");
    }
}

#[test]
fn equal_fields_make_equal_infos() {
    let a = parse(&format!("uki-linux-{ID}-1.efi"), None).unwrap();
    let b = get_info_from_file_name(
        &"kernel-".to_string(),
        &".img".to_string(),
        &format!("kernel-linux-{ID}-1.img"),
        None,
    )
    .unwrap();
    assert_eq!(a, b);
    assert_eq!(a, UKIInfo::new("linux", ID, "1"));
}

#[test]
fn pattern_replaces_prefix_and_suffix() {
    let pattern = NamePattern {
        prefix: "uki-".to_string(),
        suffix: ".efi".to_string(),
        build: BuildToken::Rolling,
    };
    let file = format!("uki-linux-{ID}-rolling.efi");
    for (prefix, suffix) in [("uki-", ".efi"), ("x-", ".img"), ("", "")] {
        let info = get_info_from_file_name(
            &prefix.to_string(),
            &suffix.to_string(),
            &file,
            Some(pattern.clone()),
        )
        .expect("parses");
        assert_eq!(fields(&info), ("linux", ID, "rolling"));
    }
    let other = NamePattern {
        prefix: "kernel-".to_string(),
        suffix: ".img".to_string(),
        build: BuildToken::Word,
    };
    let img = format!("kernel-linux-{ID}-7.img");
    let info = get_info_from_file_name(&"uki-".to_string(), &".efi".to_string(), &img, Some(other.clone()))
        .expect("parses");
    assert_eq!(fields(&info), ("linux", ID, "7"));
    assert_eq!(get_info_from_file_name(&"uki-".to_string(), &".efi".to_string(), &file, Some(other)), None);
}
