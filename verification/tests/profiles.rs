use pioneer_converter::profile::{default_output_dir, get_presets, select_profiles, ConversionProfile};

fn names(list: &[&str]) -> Vec<String> {
    list.iter().map(|s| s.to_string()).collect()
}

#[test]
fn presets_match_the_tier_table() {
    let p = get_presets();
    assert_eq!(p.len(), 4);
    let expect = [
        ("flagship", "flac", 96000, 24),
        ("standard", "aiff", 48000, 24),
        ("legacy", "wav", 44100, 16),
        ("universal", "wav", 44100, 16),
    ];
    for (profile, (name, ext, rate, depth)) in p.iter().zip(expect.iter()) {
        assert_eq!(profile.name, *name);
        assert_eq!(profile.ext, *ext);
        assert_eq!(profile.target_sample_rate, *rate);
        assert_eq!(profile.target_bit_depth, *depth);
    }
}

#[test]
fn preset_names_are_distinct() {
    let p = get_presets();
    for i in 0..p.len() {
        for j in (i + 1)..p.len() {
            assert_ne!(p[i].name, p[j].name);
        }
    }
}

#[test]
fn presets_descend_in_rate_and_depth() {
    let p = get_presets();
    for i in 0..p.len() {
        for j in i..p.len() {
            assert!(p[j].target_sample_rate <= p[i].target_sample_rate);
            assert!(p[j].target_bit_depth <= p[i].target_bit_depth);
        }
    }
}

#[test]
fn describe_shows_name_container_and_rate() {
    let p = get_presets();
    assert_eq!(p[0].describe(), "flagship (flac - 96000Hz)");
    assert_eq!(p[1].describe(), "standard (aiff - 48000Hz)");
    assert_eq!(p[2].describe(), "legacy (wav - 44100Hz)");
    let odd = ConversionProfile { name: "x", ext: "y", target_sample_rate: 0, target_bit_depth: 8 };
    assert_eq!(odd.describe(), "x (y - 0Hz)");
}

#[test]
fn output_file_name_appends_the_container() {
    let p = get_presets();
    assert_eq!(p[0].output_file_name("My Track"), "My Track.flac");
    assert_eq!(p[3].output_file_name("a.b"), "a.b.wav");
    assert_eq!(p[1].output_file_name(""), ".aiff");
}

#[test]
fn select_keeps_preset_order() {
    let picked = select_profiles(&names(&["legacy", "flagship"]));
    let got: Vec<&str> = picked.iter().map(|p| p.name).collect();
    assert_eq!(got, vec!["flagship", "legacy"]);
}

#[test]
fn select_all_names_gives_all_presets() {
    let picked = select_profiles(&names(&["universal", "legacy", "standard", "flagship"]));
    let got: Vec<&str> = picked.iter().map(|p| p.name).collect();
    assert_eq!(got, vec!["flagship", "standard", "legacy", "universal"]);
}

#[test]
fn select_ignores_unknown_and_case_different_names() {
    assert!(select_profiles(&names(&["Flagship", "cdj", ""])).is_empty());
    assert!(select_profiles(&Vec::new()).is_empty());
    let picked = select_profiles(&names(&["standard", "standard"]));
    assert_eq!(picked.len(), 1);
    assert_eq!(picked[0].name, "standard");
}

#[test]
fn default_output_dir_names_a_single_tier() {
    let p = get_presets();
    assert_eq!(default_output_dir(&vec![p[2]]), "./converted_legacy");
    assert_eq!(default_output_dir(&vec![p[0], p[1]]), "./converted");
    assert_eq!(default_output_dir(&Vec::new()), "./converted");
}
