//! The conversion tiers: which container, sample rate and bit depth each
//! family of players gets.

use vstd::prelude::*;
use crate::text::{decimal, decimal_string, string_views_of};

verus! {

/// A conversion tier: the container extension and the target format.
#[derive(Clone, Copy)]
pub struct ConversionProfile {
    pub name: &'static str,
    pub ext: &'static str,
    pub target_sample_rate: u32,
    pub target_bit_depth: u32,
}

/// The mathematical value of a tier: its texts as character sequences.
pub struct ProfileView {
    pub name: Seq<char>,
    pub ext: Seq<char>,
    pub target_sample_rate: u32,
    pub target_bit_depth: u32,
}

impl View for ConversionProfile {
    type V = ProfileView;

    open spec fn view(&self) -> ProfileView {
        ProfileView {
            name: self.name@,
            ext: self.ext@,
            target_sample_rate: self.target_sample_rate,
            target_bit_depth: self.target_bit_depth,
        }
    }
}

/// The views of a sequence of tiers.
pub open spec fn profile_views(s: Seq<ConversionProfile>) -> Seq<ProfileView> {
    s.map_values(|p: ConversionProfile| p@)
}

/// The four tiers, from the newest players down to every USB player.
pub open spec fn spec_presets() -> Seq<ProfileView> {
    seq![
        ProfileView { name: "flagship"@, ext: "flac"@, target_sample_rate: 96000, target_bit_depth: 24 },
        ProfileView { name: "standard"@, ext: "aiff"@, target_sample_rate: 48000, target_bit_depth: 24 },
        ProfileView { name: "legacy"@, ext: "wav"@, target_sample_rate: 44100, target_bit_depth: 16 },
        ProfileView { name: "universal"@, ext: "wav"@, target_sample_rate: 44100, target_bit_depth: 16 },
    ]
}

/// The tiers of `presets` whose names occur in `names`, in the order of `presets`.
pub open spec fn keep_named(presets: Seq<ProfileView>, names: Seq<Seq<char>>) -> Seq<ProfileView>
    decreases presets.len(),
{
    if presets.len() == 0 {
        Seq::empty()
    } else {
        let rest = keep_named(presets.drop_last(), names);
        if names.contains(presets.last().name) {
            rest.push(presets.last())
        } else {
            rest
        }
    }
}

/// The text a tier is shown with: `name (ext - rateHz)`.
pub open spec fn describe_spec(p: ProfileView) -> Seq<char> {
    p.name + " ("@ + p.ext + " - "@ + decimal(p.target_sample_rate as nat) + "Hz)"@
}

/// The output folder proposed when none is given.
pub open spec fn default_output_dir_spec(profiles: Seq<ProfileView>) -> Seq<char> {
    if profiles.len() == 1 {
        "./converted_"@ + profiles[0].name
    } else {
        "./converted"@
    }
}

/// The conversion tiers.
pub fn get_presets() -> (r: Vec<ConversionProfile>)
    ensures
        profile_views(r@) == spec_presets(),
        r@.len() == 4,
        r@[0].name@ == "flagship"@ && r@[0].ext@ == "flac"@ && r@[0].target_sample_rate == 96000 && r@[0].target_bit_depth == 24,
        r@[1].name@ == "standard"@ && r@[1].ext@ == "aiff"@ && r@[1].target_sample_rate == 48000 && r@[1].target_bit_depth == 24,
        r@[2].name@ == "legacy"@ && r@[2].ext@ == "wav"@ && r@[2].target_sample_rate == 44100 && r@[2].target_bit_depth == 16,
        r@[3].name@ == "universal"@ && r@[3].ext@ == "wav"@ && r@[3].target_sample_rate == 44100 && r@[3].target_bit_depth == 16,
        forall|i: int| 0 <= i < 4 ==> #[trigger] r@[i]@ == spec_presets()[i],
{
    let r = vec![
        ConversionProfile {
            name: "flagship",
            ext: "flac",
            target_sample_rate: 96000,
            target_bit_depth: 24,
        },
        ConversionProfile {
            name: "standard",
            ext: "aiff",
            target_sample_rate: 48000,
            target_bit_depth: 24,
        },
        ConversionProfile {
            name: "legacy",
            ext: "wav",
            target_sample_rate: 44100,
            target_bit_depth: 16,
        },
        ConversionProfile {
            name: "universal",
            ext: "wav",
            target_sample_rate: 44100,
            target_bit_depth: 16,
        },
    ];
    assert(profile_views(r@) =~= spec_presets());
    r
}

impl ConversionProfile {
    /// The text the tier is shown with, such as `legacy (wav - 44100Hz)`.
    pub fn describe(&self) -> (s: String)
        ensures
            s@ == describe_spec(self@),
            s@ == self.name@ + " ("@ + self.ext@ + " - "@ + decimal(self.target_sample_rate as nat) + "Hz)"@,
    {
        let mut s = String::from_str(self.name);
        s.append(" (");
        s.append(self.ext);
        s.append(" - ");
        let rate = decimal_string(self.target_sample_rate as u64);
        s.append(rate.as_str());
        s.append("Hz)");
        s
    }

    /// The name of the converted file for a track whose file stem is `stem`.
    pub fn output_file_name(&self, stem: &str) -> (s: String)
        ensures
            s@ == stem@ + "."@ + self.ext@,
    {
        let mut s = String::from_str(stem);
        s.append(".");
        s.append(self.ext);
        s
    }
}

/// Whether one of `names` is the text `name`.
fn contains_name(names: &Vec<String>, name: &str) -> (r: bool)
    ensures
        r == string_views_of(names@).contains(name@),
{
    let wanted = String::from_str(name);
    let n: usize = names.len();
    for i in 0..n
        invariant
            n == names@.len(),
            wanted@ == name@,
            forall|k: int| 0 <= k < i ==> names@[k]@ != name@,
    {
        if names[i] == wanted {
            assert(string_views_of(names@)[i as int] == name@);
            return true;
        }
    }
    assert forall|k: int| 0 <= k < string_views_of(names@).len() implies string_views_of(names@)[k] != name@ by {
        assert(string_views_of(names@)[k] == names@[k]@);
    }
    false
}

/// The tiers whose names are listed in `names`, in the order of the presets.
pub fn select_profiles(names: &Vec<String>) -> (r: Vec<ConversionProfile>)
    ensures
        profile_views(r@) == keep_named(spec_presets(), string_views_of(names@)),
{
    let all = get_presets();
    let mut r: Vec<ConversionProfile> = Vec::new();
    let n: usize = all.len();
    for i in 0..n
        invariant
            n == all@.len(),
            profile_views(all@) == spec_presets(),
            profile_views(r@) == keep_named(profile_views(all@).take(i as int), string_views_of(names@)),
    {
        let p = all[i];
        let ghost before = profile_views(all@).take(i as int);
        assert(profile_views(all@).take(i + 1).drop_last() == before);
        assert(profile_views(all@).take(i + 1).last() == p@);
        let ghost r_before = r@;
        if contains_name(names, p.name) {
            r.push(p);
            assert(profile_views(r@) =~= profile_views(r_before).push(p@));
        }
    }
    assert(profile_views(all@).take(n as int) == profile_views(all@));
    r
}

/// The output folder proposed when none is given: one named after the tier
/// when a single tier is converted, a shared one otherwise.
pub fn default_output_dir(profiles: &Vec<ConversionProfile>) -> (s: String)
    ensures
        s@ == default_output_dir_spec(profile_views(profiles@)),
        profiles@.len() == 1 ==> s@ == "./converted_"@ + profiles@[0].name@,
        profiles@.len() != 1 ==> s@ == "./converted"@,
{
    if profiles.len() == 1 {
        let mut s = String::from_str("./converted_");
        s.append(profiles[0].name);
        s
    } else {
        String::from_str("./converted")
    }
}

/// The tiers have distinct names, so a tier is picked by its name alone.
pub proof fn lemma_preset_names_distinct()
    ensures
        forall|i: int, j: int|
            0 <= i < j < spec_presets().len() ==> spec_presets()[i].name != spec_presets()[j].name,
{
    reveal_strlit("flagship");
    reveal_strlit("standard");
    reveal_strlit("legacy");
    reveal_strlit("universal");
    let p = spec_presets();
    assert(p[0].name[0] != p[1].name[0]);
    assert(p[0].name[0] != p[2].name[0]);
    assert(p[0].name[0] != p[3].name[0]);
    assert(p[1].name[0] != p[2].name[0]);
    assert(p[1].name[0] != p[3].name[0]);
    assert(p[2].name[0] != p[3].name[0]);
}

/// Each tier is more demanding than the next: rates and bit depths never
/// grow down the list.
pub proof fn lemma_presets_descend()
    ensures
        forall|i: int, j: int|
            0 <= i <= j < spec_presets().len() ==> spec_presets()[j].target_sample_rate
                <= spec_presets()[i].target_sample_rate && spec_presets()[j].target_bit_depth
                <= spec_presets()[i].target_bit_depth,
{
}

/// Selecting keeps only tiers of `presets` whose names are listed.
pub proof fn lemma_keep_named_members(presets: Seq<ProfileView>, names: Seq<Seq<char>>)
    ensures
        keep_named(presets, names).len() <= presets.len(),
        forall|i: int|
            0 <= i < keep_named(presets, names).len() ==> presets.contains(
                #[trigger] keep_named(presets, names)[i],
            ) && names.contains(keep_named(presets, names)[i].name),
    decreases presets.len(),
{
    if presets.len() > 0 {
        let init = presets.drop_last();
        lemma_keep_named_members(init, names);
        let rest = keep_named(init, names);
        assert forall|i: int| 0 <= i < keep_named(presets, names).len() implies presets.contains(
            #[trigger] keep_named(presets, names)[i],
        ) && names.contains(keep_named(presets, names)[i].name) by {
            if i < rest.len() {
                assert(keep_named(presets, names)[i] == rest[i]);
                let k = choose|k: int| 0 <= k < init.len() && init[k] == rest[i];
                assert(presets[k] == init[k]);
            } else {
                assert(presets[presets.len() - 1] == presets.last());
            }
        }
    }
}

/// Selecting every tier's name gives all the tiers, in order.
pub proof fn lemma_keep_named_all(presets: Seq<ProfileView>, names: Seq<Seq<char>>)
    requires
        forall|i: int| 0 <= i < presets.len() ==> names.contains(#[trigger] presets[i].name),
    ensures
        keep_named(presets, names) == presets,
    decreases presets.len(),
{
    if presets.len() > 0 {
        let init = presets.drop_last();
        assert forall|i: int| 0 <= i < init.len() implies names.contains(#[trigger] init[i].name) by {
            assert(init[i] == presets[i]);
        }
        lemma_keep_named_all(init, names);
        assert(names.contains(presets[presets.len() - 1].name));
        assert(init.push(presets.last()) =~= presets);
    }
}

/// Selecting no listed name gives no tier.
pub proof fn lemma_keep_named_none(presets: Seq<ProfileView>, names: Seq<Seq<char>>)
    requires
        forall|i: int| 0 <= i < presets.len() ==> !names.contains(#[trigger] presets[i].name),
    ensures
        keep_named(presets, names).len() == 0,
    decreases presets.len(),
{
    if presets.len() > 0 {
        let init = presets.drop_last();
        assert forall|i: int| 0 <= i < init.len() implies !names.contains(#[trigger] init[i].name) by {
            assert(init[i] == presets[i]);
        }
        lemma_keep_named_none(init, names);
        assert(!names.contains(presets[presets.len() - 1].name));
    }
}

/// The tier table: FLAC 24-bit/96 kHz, AIFF 24-bit/48 kHz, and WAV
/// 16-bit/44.1 kHz twice.
pub proof fn lemma_preset_table()
    ensures
        spec_presets().len() == 4,
        spec_presets()[0] == (ProfileView { name: "flagship"@, ext: "flac"@, target_sample_rate: 96000, target_bit_depth: 24 }),
        spec_presets()[1] == (ProfileView { name: "standard"@, ext: "aiff"@, target_sample_rate: 48000, target_bit_depth: 24 }),
        spec_presets()[2] == (ProfileView { name: "legacy"@, ext: "wav"@, target_sample_rate: 44100, target_bit_depth: 16 }),
        spec_presets()[3] == (ProfileView { name: "universal"@, ext: "wav"@, target_sample_rate: 44100, target_bit_depth: 16 }),
{
}

} // verus!
