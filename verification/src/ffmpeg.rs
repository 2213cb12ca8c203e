//! The external encoder: the command line it is given for a tier, and the
//! parsers of what it prints.

use vstd::prelude::*;
use crate::profile::{spec_presets, ConversionProfile, ProfileView};
use crate::text::{
    chars_of, decimal, decimal_string, is_digit, lemma_decimal_digits, lemma_parse_decimal,
    lemma_trim_spaced_decimal, parse_u32, parse_u32_range, same_text, string_of_range,
    string_views_of, trim, trim_bounds,
};

verus! {

/// The prefix of a Windows extended-length path, `\\?\`.
pub open spec fn verbatim_prefix() -> Seq<char> {
    seq!['\\', '\\', '?', '\\']
}

/// `path` without a leading `\\?\`.
pub open spec fn clean_path_spec(path: Seq<char>) -> Seq<char> {
    if path.len() >= 4 && path.take(4) == verbatim_prefix() {
        path.skip(4)
    } else {
        path
    }
}

/// The encoder arguments that select the codec of a tier's container.
pub open spec fn codec_args_spec(p: ProfileView) -> Seq<Seq<char>> {
    if p.ext == "flac"@ {
        seq!["-c:a"@, "flac"@]
    } else if p.ext == "wav"@ && p.target_bit_depth == 16 {
        seq!["-c:a"@, "pcm_s16le"@, "-write_id3v2"@, "1"@]
    } else if p.ext == "wav"@ && p.target_bit_depth == 24 {
        seq!["-c:a"@, "pcm_s24le"@, "-write_id3v2"@, "1"@]
    } else if p.ext == "aiff"@ && p.target_bit_depth == 16 {
        seq!["-c:a"@, "pcm_s16be"@, "-write_id3v2"@, "1"@]
    } else if p.ext == "aiff"@ && p.target_bit_depth == 24 {
        seq!["-c:a"@, "pcm_s24be"@, "-write_id3v2"@, "1"@]
    } else {
        seq!["-c:a"@, "pcm_s16le"@]
    }
}

/// The sample rate the encoder is asked for: the tier's rate, unless the
/// source is slower and upsampling is not forced, in which case the source's.
pub open spec fn effective_sample_rate_spec(source_hz: u32, target_hz: u32, force: bool) -> u32 {
    if !force && source_hz < target_hz {
        source_hz
    } else {
        target_hz
    }
}

/// The whole argument list of one encoder run.
pub open spec fn encoder_args_spec(
    input: Seq<char>,
    output: Seq<char>,
    rate_hz: u32,
    p: ProfileView,
) -> Seq<Seq<char>> {
    seq![
        "-y"@, "-loglevel"@, "level"@, "-i"@, clean_path_spec(input), "-progress"@, "pipe:1"@,
        "-map_metadata"@, "0"@, "-hide_banner"@, "-stats"@, "-ar"@, decimal(rate_hz as nat),
    ] + codec_args_spec(p) + seq![clean_path_spec(output)]
}

/// `path` without the `\\?\` prefix that canonical Windows paths carry.
pub fn clean_path(path: &str) -> (r: String)
    ensures
        r@ == clean_path_spec(path@),
        forall|rest: Seq<char>| path@ == seq!['\\', '\\', '?', '\\'] + rest ==> r@ == rest,
        path@.len() == 0 || path@[0] != '\\' ==> r@ == path@,
        r@.len() + 4 == path@.len() || r@ == path@,
{
    let v = chars_of(path);
    let n: usize = v.len();
    proof {
        assert forall|rest: Seq<char>| path@ == seq!['\\', '\\', '?', '\\'] + rest implies clean_path_spec(path@) == rest by {
            lemma_clean_path_prefix(rest);
        }
        if path@.len() >= 4 {
            assert(path@.take(4)[0] == path@[0]);
        }
    }
    if n >= 4 && v[0] == '\\' && v[1] == '\\' && v[2] == '?' && v[3] == '\\' {
        assert(v@.take(4) =~= verbatim_prefix());
        assert(v@.subrange(4, n as int) == v@.skip(4));
        string_of_range(&v, 4, n)
    } else {
        assert(n >= 4 ==> v@.take(4) != verbatim_prefix()) by {
            if n >= 4 && v@.take(4) == verbatim_prefix() {
                assert(v@.take(4)[0] == v@[0]);
                assert(v@.take(4)[1] == v@[1]);
                assert(v@.take(4)[2] == v@[2]);
                assert(v@.take(4)[3] == v@[3]);
            }
        }
        assert(v@.subrange(0, n as int) == v@);
        string_of_range(&v, 0, n)
    }
}

fn strs(items: &[&str]) -> (r: Vec<String>)
    ensures
        string_views_of(r@) == items@.map_values(|s: &str| s@),
{
    let mut r: Vec<String> = Vec::new();
    let n: usize = items.len();
    for i in 0..n
        invariant
            n == items@.len(),
            string_views_of(r@) == items@.take(i as int).map_values(|s: &str| s@),
    {
        let ghost before = r@;
        r.push(String::from_str(items[i]));
        assert(string_views_of(r@) =~= string_views_of(before).push(items@[i as int]@));
        assert(items@.take(i + 1).map_values(|s: &str| s@) =~= items@.take(i as int).map_values(
            |s: &str| s@,
        ).push(items@[i as int]@));
    }
    assert(items@.take(n as int) == items@);
    r
}

/// The encoder arguments that select the codec of the tier's container.
pub fn get_ffmpeg_codec_args(profile: &ConversionProfile) -> (r: Vec<String>)
    ensures
        string_views_of(r@) == codec_args_spec(profile@),
        r@.len() == 2 || r@.len() == 4,
        r@[0]@ == "-c:a"@,
        profile.ext@ == "flac"@ ==> r@.len() == 2 && r@[1]@ == "flac"@,
        profile.ext@ == "wav"@ && profile.target_bit_depth == 16 ==> r@.len() == 4 && r@[1]@ == "pcm_s16le"@,
        profile.ext@ == "wav"@ && profile.target_bit_depth == 24 ==> r@.len() == 4 && r@[1]@ == "pcm_s24le"@,
        profile.ext@ == "aiff"@ && profile.target_bit_depth == 16 ==> r@.len() == 4 && r@[1]@ == "pcm_s16be"@,
        profile.ext@ == "aiff"@ && profile.target_bit_depth == 24 ==> r@.len() == 4 && r@[1]@ == "pcm_s24be"@,
        r@.len() == 4 ==> r@[2]@ == "-write_id3v2"@ && r@[3]@ == "1"@,
{
    let depth: u32 = profile.target_bit_depth;
    let items: &[&str] = if same_text(profile.ext, "flac") {
        &["-c:a", "flac"]
    } else if same_text(profile.ext, "wav") && depth == 16 {
        &["-c:a", "pcm_s16le", "-write_id3v2", "1"]
    } else if same_text(profile.ext, "wav") && depth == 24 {
        &["-c:a", "pcm_s24le", "-write_id3v2", "1"]
    } else if same_text(profile.ext, "aiff") && depth == 16 {
        &["-c:a", "pcm_s16be", "-write_id3v2", "1"]
    } else if same_text(profile.ext, "aiff") && depth == 24 {
        &["-c:a", "pcm_s24be", "-write_id3v2", "1"]
    } else {
        &["-c:a", "pcm_s16le"]
    };
    let r = strs(items);
    assert(items@.map_values(|s: &str| s@) =~= codec_args_spec(profile@));
    proof {
        lemma_codec_by_container(profile@);
        assert(string_views_of(r@)[0] == r@[0]@);
        assert(string_views_of(r@)[1] == r@[1]@);
        if r@.len() == 4 {
            assert(string_views_of(r@)[2] == r@[2]@);
            assert(string_views_of(r@)[3] == r@[3]@);
        }
    }
    r
}

/// The sample rate the encoder is asked for, as the conversion decides it.
pub fn effective_sample_rate(source_hz: u32, target_hz: u32, force_upsampling: bool) -> (r: u32)
    ensures
        r == effective_sample_rate_spec(source_hz, target_hz, force_upsampling),
        !force_upsampling && source_hz < target_hz ==> r == source_hz,
        force_upsampling || source_hz >= target_hz ==> r == target_hz,
{
    if !force_upsampling && source_hz < target_hz {
        source_hz
    } else {
        target_hz
    }
}

/// The arguments of one encoder run: overwrite, report progress on standard
/// output, keep the tags, resample to `rate_hz`, encode with the tier's codec.
/// `input` and `output` are absolute paths; their `\\?\` prefix is removed.
pub fn ffmpeg_args(input: &str, output: &str, rate_hz: u32, profile: &ConversionProfile) -> (r:
    Vec<String>)
    ensures
        string_views_of(r@) == encoder_args_spec(input@, output@, rate_hz, profile@),
        r@.len() == 14 + codec_args_spec(profile@).len(),
        forall|rest: Seq<char>| output@ == seq!['\\', '\\', '?', '\\'] + rest ==> r@[r@.len() - 1]@ == rest,
        forall|rest: Seq<char>| input@ == seq!['\\', '\\', '?', '\\'] + rest ==> r@[4]@ == rest,
        output@.len() == 0 || output@[0] != '\\' ==> r@[r@.len() - 1]@ == output@,
        input@.len() == 0 || input@[0] != '\\' ==> r@[4]@ == input@,
        r@[12]@ == decimal(rate_hz as nat),
{
    let mut r: Vec<String> = strs(&["-y", "-loglevel", "level", "-i"]);
    let ghost a = r@;
    r.push(clean_path(input));
    let ghost b = r@;
    let mut mid = strs(&["-progress", "pipe:1", "-map_metadata", "0", "-hide_banner", "-stats", "-ar"]);
    let ghost c = mid@;
    r.append(&mut mid);
    let ghost d = r@;
    r.push(decimal_string(rate_hz as u64));
    let ghost e = r@;
    let mut codec = get_ffmpeg_codec_args(profile);
    let ghost f = codec@;
    r.append(&mut codec);
    let ghost g = r@;
    r.push(clean_path(output));
    proof {
        lemma_encoder_args_paths(input@, output@, rate_hz, profile@);
        assert(string_views_of(b) =~= string_views_of(a).push(clean_path_spec(input@)));
        assert(string_views_of(d) =~= string_views_of(b) + string_views_of(c));
        assert(string_views_of(e) =~= string_views_of(d).push(decimal(rate_hz as nat)));
        assert(string_views_of(g) =~= string_views_of(e) + string_views_of(f));
        assert(string_views_of(r@) =~= string_views_of(g).push(clean_path_spec(output@)));
        assert(string_views_of(r@) =~= encoder_args_spec(input@, output@, rate_hz, profile@));
    }
    r
}

/// Whether ` Hz` starts at position `i` of `s`.
pub open spec fn hz_at(s: Seq<char>, i: int) -> bool {
    0 <= i && i + 3 <= s.len() && s[i] == ' ' && s[i + 1] == 'H' && s[i + 2] == 'z'
}

/// The first position at or after `i` where ` Hz` starts.
pub open spec fn find_hz_from(s: Seq<char>, i: int) -> Option<int>
    decreases s.len() - i,
{
    if i < 0 || i + 3 > s.len() {
        None
    } else if hz_at(s, i) {
        Some(i)
    } else {
        find_hz_from(s, i + 1)
    }
}

/// The position of the last space before position `k`, or `0` when there is none.
pub open spec fn last_space_before(s: Seq<char>, k: int) -> int
    decreases k,
{
    if k <= 0 {
        0
    } else if s[k - 1] == ' ' {
        k - 1
    } else {
        last_space_before(s, k - 1)
    }
}

/// The rate that the encoder reports for a source in the text `info`: the
/// word before the first ` Hz`, taken as a number; 44100 where that fails.
pub open spec fn reported_sample_rate(info: Seq<char>) -> u32 {
    match find_hz_from(info, 0) {
        None => 44100,
        Some(k) => match parse_u32(trim(info.subrange(last_space_before(info, k), k))) {
            Some(hz) => hz,
            None => 44100,
        },
    }
}

fn find_hz(v: &Vec<char>) -> (r: Option<usize>)
    ensures
        match r {
            Some(i) => i + 3 <= v@.len() && find_hz_from(v@, 0) == Some(i as int),
            None => find_hz_from(v@, 0) is None,
        },
{
    let n: usize = v.len();
    let mut i: usize = 0;
    while i < n && n - i >= 3
        invariant
            i <= n == v@.len(),
            find_hz_from(v@, 0) == find_hz_from(v@, i as int),
        decreases n - i,
    {
        if v[i] == ' ' && v[i + 1] == 'H' && v[i + 2] == 'z' {
            return Some(i);
        }
        i = i + 1;
    }
    None
}

/// The sample rate of a source as the encoder reports it in `info` (what it
/// prints when asked about the file): the number before the first ` Hz`, or
/// 44100 when there is no such number.
pub fn parse_sample_rate(info: &str) -> (hz: u32)
    ensures
        hz == reported_sample_rate(info@),
{
    let v = chars_of(info);
    let found = find_hz(&v);
    if found.is_none() {
        assert(v@ == info@);
        return 44100;
    }
    let i: usize = found.unwrap();
    let n: usize = v.len();
    let k: usize = i;
    let mut j: usize = k;
    while j > 0 && v[j - 1] != ' '
        invariant
            j <= k <= n == v@.len(),
            last_space_before(v@, k as int) == last_space_before(v@, j as int),
        decreases j,
    {
        j = j - 1;
    }
    let start: usize = if j == 0 { 0 } else { j - 1 };
    let (a, b) = trim_bounds(&v, start, k);
    match parse_u32_range(&v, a, b) {
        Some(hz) => hz,
        None => 44100,
    }
}

/// Whether the characters `pat` occur in `s` at position `i`.
pub open spec fn occurs_at(s: Seq<char>, pat: Seq<char>, i: int) -> bool {
    0 <= i && i + pat.len() <= s.len() && s.subrange(i, i + pat.len()) == pat
}

/// `s` with every occurrence of `pat` removed, scanning from the left
/// without overlaps, as `str::replace(pat, "")` does.
pub open spec fn remove_all(s: Seq<char>, pat: Seq<char>) -> Seq<char>
    decreases s.len(),
{
    if s.len() == 0 {
        s
    } else if pat.len() > 0 && occurs_at(s, pat, 0) {
        remove_all(s.skip(pat.len() as int), pat)
    } else {
        seq![s[0]] + remove_all(s.skip(1), pat)
    }
}

/// The progress the encoder reports on a line such as `out_time=00:01:02.5`:
/// the line without the `out_time=` key, trimmed.
pub open spec fn progress_time_spec(line: Seq<char>) -> Option<Seq<char>> {
    if occurs_at(line, "out_time="@, 0) {
        Some(trim(remove_all(line, "out_time="@)))
    } else {
        None
    }
}

fn occurs_at_exec(v: &Vec<char>, pat: &Vec<char>, i: usize) -> (r: bool)
    requires
        i <= v@.len(),
    ensures
        r == occurs_at(v@, pat@, i as int),
{
    if pat.len() > v.len() - i {
        return false;
    }
    let m: usize = pat.len();
    let mut k: usize = 0;
    while k < m
        invariant
            m == pat@.len(),
            k <= m,
            i + m <= v.len(),
            forall|t: int| 0 <= t < k ==> v@[i + t] == pat@[t],
        decreases m - k,
    {
        let at: usize = i + k;
        if v[at] != pat[k] {
            assert(v@.subrange(i as int, i + m)[k as int] == v@[i + k]);
            return false;
        }
        k = k + 1;
    }
    assert(v@.subrange(i as int, i + m) =~= pat@);
    true
}

/// The playing position on a progress line of the encoder, such as
/// `out_time=00:01:02.500000`; `None` for other lines.
pub fn progress_time(line: &str) -> (r: Option<String>)
    ensures
        match r {
            Some(t) => progress_time_spec(line@) == Some(t@),
            None => progress_time_spec(line@) is None,
        },
{
    let v = chars_of(line);
    let pat = chars_of("out_time=");
    proof {
        reveal_strlit("out_time=");
    }
    if !occurs_at_exec(&v, &pat, 0) {
        return None;
    }
    let n: usize = v.len();
    let m: usize = pat.len();
    let mut out: Vec<char> = Vec::new();
    let mut i: usize = 0;
    assert(v@.skip(0) == v@);
    while i < n
        invariant
            i <= n == v@.len(),
            m == pat@.len() == 9,
            pat@ == "out_time="@,
            remove_all(v@, pat@) == out@ + remove_all(v@.skip(i as int), pat@),
        decreases n - i,
    {
        let ghost rest = v@.skip(i as int);
        if occurs_at_exec(&v, &pat, i) {
            assert(occurs_at(rest, pat@, 0)) by {
                assert(rest.subrange(0, 9) =~= v@.subrange(i as int, i + 9));
            }
            assert(rest.skip(9) =~= v@.skip(i + 9));
            i = i + m;
        } else {
            assert(!occurs_at(rest, pat@, 0)) by {
                if occurs_at(rest, pat@, 0) {
                    assert(rest.subrange(0, 9) =~= v@.subrange(i as int, i + 9));
                }
            }
            assert(rest.skip(1) =~= v@.skip(i + 1));
            let ghost before = out@;
            out.push(v[i]);
            assert(rest[0] == v@[i as int]);
            assert(before + remove_all(rest, pat@) =~= out@ + remove_all(v@.skip(i + 1), pat@));
            i = i + 1;
        }
    }
    assert(v@.skip(i as int).len() == 0);
    assert(remove_all(v@, pat@) =~= out@);
    let len: usize = out.len();
    let (a, b) = trim_bounds(&out, 0, len);
    assert(out@.subrange(0, len as int) == out@);
    Some(string_of_range(&out, a, b))
}

/// The position of the first line feed at or after `i`, or the length of `s`.
pub open spec fn newline_from(s: Seq<char>, i: int) -> int
    decreases s.len() - i,
{
    if i < 0 || i >= s.len() {
        s.len() as int
    } else if s[i] == '\n' {
        i
    } else {
        newline_from(s, i + 1)
    }
}

/// The first line of `s` as `str::lines` yields it: up to the first line
/// feed, without a carriage return before it; `None` for an empty text.
pub open spec fn first_line_spec(s: Seq<char>) -> Option<Seq<char>> {
    if s.len() == 0 {
        None
    } else {
        let k = newline_from(s, 0);
        if k < s.len() {
            let l = s.take(k);
            if l.len() > 0 && l.last() == '\r' {
                Some(l.drop_last())
            } else {
                Some(l)
            }
        } else {
            Some(s)
        }
    }
}

/// The version banner shown for the encoder: the first line of what it
/// prints for `-version`, or `Unknown version` when it prints nothing.
pub open spec fn version_line_spec(s: Seq<char>) -> Seq<char> {
    match first_line_spec(s) {
        Some(l) => l,
        None => "Unknown version"@,
    }
}

/// The version banner shown for the encoder, from what it prints for `-version`.
pub fn version_line(output: &str) -> (r: String)
    ensures
        r@ == version_line_spec(output@),
{
    let v = chars_of(output);
    let n: usize = v.len();
    if n == 0 {
        return String::from_str("Unknown version");
    }
    let mut i: usize = 0;
    while i < n && v[i] != '\n'
        invariant
            i <= n == v@.len(),
            newline_from(v@, 0) == newline_from(v@, i as int),
        decreases n - i,
    {
        i = i + 1;
    }
    if i < n {
        assert(v@.take(i as int) == v@.subrange(0, i as int));
        if i > 0 && v[i - 1] == '\r' {
            assert(v@.take(i as int).drop_last() == v@.subrange(0, i - 1));
            string_of_range(&v, 0, i - 1)
        } else {
            string_of_range(&v, 0, i)
        }
    } else {
        assert(v@.subrange(0, n as int) == v@);
        string_of_range(&v, 0, n)
    }
}

/// The message of a failed encoder run: `FFmpeg Error: ` and what the
/// encoder printed on its error stream, trimmed.
pub fn ffmpeg_failure_message(stderr: &str) -> (r: String)
    ensures
        r@ == "FFmpeg Error: "@ + trim(stderr@),
{
    let v = chars_of(stderr);
    let n: usize = v.len();
    let (a, b) = trim_bounds(&v, 0, n);
    assert(v@.subrange(0, n as int) == v@);
    let detail = string_of_range(&v, a, b);
    let mut r = String::from_str("FFmpeg Error: ");
    r.append(detail.as_str());
    r
}

/// Where no ` Hz` starts in `s` from position `j` on, the search from `j` finds none.
proof fn lemma_find_hz_none(s: Seq<char>, j: int)
    requires
        0 <= j,
        find_hz_from(s, j) is None,
    ensures
        forall|i: int| j <= i ==> !hz_at(s, i),
    decreases s.len() - j,
{
    if j + 3 <= s.len() {
        lemma_find_hz_none(s, j + 1);
    }
}

/// The search from `j` finds the first ` Hz` at or after `j`.
proof fn lemma_find_hz_first(s: Seq<char>, j: int, k: int)
    requires
        0 <= j <= k,
        hz_at(s, k),
        forall|i: int| j <= i < k ==> !hz_at(s, i),
    ensures
        find_hz_from(s, j) == Some(k),
    decreases k - j,
{
    if j < k {
        lemma_find_hz_first(s, j + 1, k);
    }
}

/// The search for the last space before `k` stops at a space at `m` when
/// no space stands between `m` and `k`.
proof fn lemma_last_space(s: Seq<char>, m: int, k: int)
    requires
        0 <= m < k <= s.len(),
        s[m] == ' ',
        forall|t: int| m < t < k ==> s[t] != ' ',
    ensures
        last_space_before(s, k) == m,
    decreases k,
{
    if k - 1 > m {
        lemma_last_space(s, m, k - 1);
    }
}

/// The rate the encoder prints as ` <rate> Hz` is read back, whatever
/// surrounds it, provided no ` Hz` comes before it.
pub proof fn lemma_reported_rate_round_trip(pre: Seq<char>, n: u32, post: Seq<char>)
    requires
        find_hz_from(pre, 0) is None,
    ensures
        reported_sample_rate(pre + seq![' '] + decimal(n as nat) + " Hz"@ + post) == n,
{
    reveal_strlit(" Hz");
    let d = decimal(n as nat);
    lemma_decimal_digits(n as nat);
    let text = pre + seq![' '] + d + " Hz"@ + post;
    let p = pre.len() as int;
    let k = p + 1 + d.len();
    assert(text[k] == ' ' && text[k + 1] == 'H' && text[k + 2] == 'z');
    assert(hz_at(text, k));
    lemma_find_hz_none(pre, 0);
    assert forall|i: int| 0 <= i < k implies !hz_at(text, i) by {
        if i + 3 <= p {
            assert(!hz_at(pre, i));
            assert(text[i] == pre[i] && text[i + 1] == pre[i + 1] && text[i + 2] == pre[i + 2]);
        } else if i + 1 < k {
            if i + 1 < p {
                assert(i + 2 == p);
                assert(text[i + 2] == ' ');
            } else if i + 1 == p {
                assert(text[i + 1] == ' ');
            } else {
                assert(text[i + 1] == d[i + 1 - p - 1]);
                assert(is_digit(d[i + 1 - p - 1]));
            }
        } else {
            assert(text[i + 1] == ' ');
        }
    }
    lemma_find_hz_first(text, 0, k);
    assert(text[p] == ' ');
    assert forall|t: int| p < t < k implies text[t] != ' ' by {
        assert(text[t] == d[t - p - 1]);
        assert(is_digit(d[t - p - 1]));
    }
    lemma_last_space(text, p, k);
    assert(text.subrange(p, k) =~= seq![' '] + d);
    lemma_trim_spaced_decimal(n as nat);
    lemma_parse_decimal(n);
}

/// Unless upsampling is forced, the encoder is never asked for a rate above
/// the source's or the tier's; forced, it always gets the tier's rate.
pub proof fn lemma_no_upsampling_unless_forced(source_hz: u32, target_hz: u32, force: bool)
    ensures
        !force ==> effective_sample_rate_spec(source_hz, target_hz, force) <= source_hz
            && effective_sample_rate_spec(source_hz, target_hz, force) <= target_hz,
        force ==> effective_sample_rate_spec(source_hz, target_hz, force) == target_hz,
        source_hz >= target_hz ==> effective_sample_rate_spec(source_hz, target_hz, force) == target_hz,
{
}

/// Cleaning removes the extended-length prefix `\\?\` and nothing else.
pub proof fn lemma_clean_path_prefix(rest: Seq<char>)
    ensures
        clean_path_spec(seq!['\\', '\\', '?', '\\'] + rest) == rest,
{
    assert((verbatim_prefix() + rest).take(4) =~= verbatim_prefix());
    assert((verbatim_prefix() + rest).skip(4) =~= rest);
    assert(verbatim_prefix() =~= seq!['\\', '\\', '?', '\\']);
}

/// A path that does not start with the extended-length prefix is kept as it is.
pub proof fn lemma_clean_path_plain(path: Seq<char>)
    requires
        !(path.len() >= 4 && path.take(4) == verbatim_prefix()),
    ensures
        clean_path_spec(path) == path,
{
}

/// A path that does not start with a backslash is kept as it is.
pub proof fn lemma_clean_path_keeps_plain(path: Seq<char>)
    requires
        path.len() == 0 || path[0] != '\\',
    ensures
        clean_path_spec(path) == path,
{
    if path.len() >= 4 {
        assert(path.take(4)[0] == path[0]);
    }
}

/// Removing a pattern that does not occur leaves a text unchanged.
proof fn lemma_remove_all_absent(s: Seq<char>, pat: Seq<char>)
    requires
        pat.len() > 0,
        forall|i: int| 0 <= i < s.len() ==> !occurs_at(s, pat, i),
    ensures
        remove_all(s, pat) == s,
    decreases s.len(),
{
    if s.len() > 0 {
        assert(!occurs_at(s, pat, 0));
        let t = s.skip(1);
        assert forall|i: int| 0 <= i < t.len() implies !occurs_at(t, pat, i) by {
            if occurs_at(t, pat, i) {
                assert(s.subrange(i + 1, i + 1 + pat.len()) =~= t.subrange(i, i + pat.len()));
                assert(occurs_at(s, pat, i + 1));
            }
        }
        lemma_remove_all_absent(t, pat);
        assert(seq![s[0]] + t =~= s);
    }
}

/// A progress line `out_time=<t>` reports `t`, trimmed, when `t` does not
/// repeat the key.
pub proof fn lemma_progress_of_time(t: Seq<char>)
    requires
        forall|i: int| 0 <= i < t.len() ==> !occurs_at(t, "out_time="@, i),
    ensures
        progress_time_spec("out_time="@ + t) == Some(trim(t)),
{
    reveal_strlit("out_time=");
    let pat = "out_time="@;
    let line = pat + t;
    assert(line.subrange(0, 9) =~= pat);
    assert(occurs_at(line, pat, 0));
    assert(line.skip(9) =~= t);
    lemma_remove_all_absent(t, pat);
}

/// Every tier is encoded with a codec chosen for its container and bit
/// depth: FLAC for FLAC, little-endian PCM for WAV, big-endian PCM for AIFF.
pub proof fn lemma_presets_have_codecs()
    ensures
        codec_args_spec(spec_presets()[0]) == seq!["-c:a"@, "flac"@],
        codec_args_spec(spec_presets()[1]) == seq!["-c:a"@, "pcm_s24be"@, "-write_id3v2"@, "1"@],
        codec_args_spec(spec_presets()[2]) == seq!["-c:a"@, "pcm_s16le"@, "-write_id3v2"@, "1"@],
        codec_args_spec(spec_presets()[3]) == seq!["-c:a"@, "pcm_s16le"@, "-write_id3v2"@, "1"@],
{
    reveal_strlit("flac");
    reveal_strlit("aiff");
    reveal_strlit("wav");
    assert("aiff"@[0] != "flac"@[0]);
    assert("aiff"@.len() != "wav"@.len());
    assert("wav"@.len() != "flac"@.len());
}

/// The encoder gets the tier's rate when upsampling is forced or the source
/// is not slower, and the source's own rate otherwise.
pub proof fn lemma_encoder_rate(source_hz: u32, target_hz: u32, force: bool)
    ensures
        !force && source_hz < target_hz ==> effective_sample_rate_spec(source_hz, target_hz, force) == source_hz,
        force ==> effective_sample_rate_spec(source_hz, target_hz, force) == target_hz,
        source_hz >= target_hz ==> effective_sample_rate_spec(source_hz, target_hz, force) == target_hz,
{
}

/// The input path is the fifth argument and the output path the last, each
/// without a leading `\\?\`; the rate follows `-ar` in decimal.
pub proof fn lemma_encoder_args_paths(input: Seq<char>, output: Seq<char>, rate_hz: u32, p: ProfileView)
    ensures
        encoder_args_spec(input, output, rate_hz, p).len() == 14 + codec_args_spec(p).len(),
        forall|rest: Seq<char>|
            output == seq!['\\', '\\', '?', '\\'] + rest ==> encoder_args_spec(input, output, rate_hz, p).last() == rest,
        forall|rest: Seq<char>|
            input == seq!['\\', '\\', '?', '\\'] + rest ==> encoder_args_spec(input, output, rate_hz, p)[4] == rest,
        output.len() == 0 || output[0] != '\\' ==> encoder_args_spec(input, output, rate_hz, p).last() == output,
        input.len() == 0 || input[0] != '\\' ==> encoder_args_spec(input, output, rate_hz, p)[4] == input,
        encoder_args_spec(input, output, rate_hz, p)[11] == "-ar"@,
        encoder_args_spec(input, output, rate_hz, p)[12] == decimal(rate_hz as nat),
{
    let a = encoder_args_spec(input, output, rate_hz, p);
    assert forall|rest: Seq<char>| output == seq!['\\', '\\', '?', '\\'] + rest implies a.last() == rest by {
        lemma_clean_path_prefix(rest);
    }
    assert forall|rest: Seq<char>| input == seq!['\\', '\\', '?', '\\'] + rest implies a[4] == rest by {
        lemma_clean_path_prefix(rest);
    }
    if output.len() == 0 || output[0] != '\\' {
        if output.len() >= 4 {
            assert(output.take(4)[0] == output[0]);
        }
    }
    if input.len() == 0 || input[0] != '\\' {
        if input.len() >= 4 {
            assert(input.take(4)[0] == input[0]);
        }
    }
}

/// The first line of the encoder's version output is its banner: the text
/// up to the first line feed, without a carriage return before it.
pub proof fn lemma_version_banner(line: Seq<char>, rest: Seq<char>)
    requires
        forall|i: int| 0 <= i < line.len() ==> line[i] != '\n',
    ensures
        line.len() == 0 || line.last() != '\r' ==> version_line_spec(line + seq!['\n'] + rest) == line,
        version_line_spec(line + seq!['\r', '\n'] + rest) == line,
        line.len() > 0 ==> version_line_spec(line) == line,
        version_line_spec(Seq::<char>::empty()) == "Unknown version"@,
{
    let s1 = line + seq!['\n'] + rest;
    lemma_newline_at(s1, 0, line.len() as int);
    assert(s1.take(line.len() as int) =~= line);
    let s2 = line + seq!['\r', '\n'] + rest;
    lemma_newline_at(s2, 0, line.len() as int + 1);
    assert(s2.take(line.len() as int + 1) =~= line.push('\r'));
    assert(line.push('\r').drop_last() =~= line);
    if line.len() > 0 {
        lemma_newline_none(line, 0);
    }
}

proof fn lemma_newline_at(s: Seq<char>, i: int, k: int)
    requires
        0 <= i <= k < s.len(),
        s[k] == '\n',
        forall|j: int| i <= j < k ==> s[j] != '\n',
    ensures
        newline_from(s, i) == k,
    decreases k - i,
{
    if i < k {
        lemma_newline_at(s, i + 1, k);
    }
}

proof fn lemma_newline_none(s: Seq<char>, i: int)
    requires
        0 <= i <= s.len(),
        forall|j: int| i <= j < s.len() ==> s[j] != '\n',
    ensures
        newline_from(s, i) == s.len(),
    decreases s.len() - i,
{
    if i < s.len() {
        lemma_newline_none(s, i + 1);
    }
}

/// The codec follows the container and bit depth: FLAC for FLAC whatever
/// the depth, little-endian PCM for WAV, big-endian PCM for AIFF, 16 or 24
/// bits as the tier says, with ID3 tags for PCM; plain 16-bit little-endian
/// PCM for anything else.
pub proof fn lemma_codec_by_container(p: ProfileView)
    ensures
        codec_args_spec(p).len() == 2 || codec_args_spec(p).len() == 4,
        codec_args_spec(p)[0] == "-c:a"@,
        p.ext == "flac"@ ==> codec_args_spec(p) == seq!["-c:a"@, "flac"@],
        p.ext == "wav"@ && p.target_bit_depth == 16 ==> codec_args_spec(p) == seq!["-c:a"@, "pcm_s16le"@, "-write_id3v2"@, "1"@],
        p.ext == "wav"@ && p.target_bit_depth == 24 ==> codec_args_spec(p) == seq!["-c:a"@, "pcm_s24le"@, "-write_id3v2"@, "1"@],
        p.ext == "aiff"@ && p.target_bit_depth == 16 ==> codec_args_spec(p) == seq!["-c:a"@, "pcm_s16be"@, "-write_id3v2"@, "1"@],
        p.ext == "aiff"@ && p.target_bit_depth == 24 ==> codec_args_spec(p) == seq!["-c:a"@, "pcm_s24be"@, "-write_id3v2"@, "1"@],
        codec_args_spec(p).len() == 4 ==> codec_args_spec(p)[2] == "-write_id3v2"@ && codec_args_spec(p)[3] == "1"@,
        !(p.ext == "flac"@ || p.ext == "wav"@ || p.ext == "aiff"@) ==> codec_args_spec(p) == seq!["-c:a"@, "pcm_s16le"@],
{
    reveal_strlit("flac");
    reveal_strlit("aiff");
    reveal_strlit("wav");
    assert("aiff"@[0] != "flac"@[0]);
    assert("aiff"@.len() != "wav"@.len());
    assert("wav"@.len() != "flac"@.len());
}

} // verus!
