//! Self-update decisions: where the update manifest lives, which package of
//! the manifest applies, whether its version is newer than the running one,
//! where to download it from, whether the downloaded bytes match the
//! published MD5 checksum, and the file name it is saved under.
use vstd::prelude::*;
use crate::text::{
    chars_of, string_from_chars, split_on, split_chars, lemma_split_nonempty, parse_unsigned,
    parse_unsigned_spec, trim_end_char, trim_end_chars, first_occurrence, find_chars, starts_with,
    has_prefix, extend_chars, extend_str, eq_ignore_ascii_case, eq_ignore_ascii_case_chars,
    lower_hex, lower_hex_string, trim, trim_chars, str_eq, digits_value, digit_of,
};

verus! {

/// The path of the update manifest below the API server.
pub open spec fn manifest_path() -> Seq<char> {
    "/downloads/updates.json"@
}

/// The manifest address for an API server: the server without its trailing
/// slashes, then the manifest path.
pub fn updates_url_for(api: &str) -> (res: String)
    ensures
        res@ == trim_end_char(api@, '/') + manifest_path(),
{
    let cs = chars_of(api);
    let mut out = trim_end_chars(cs.as_slice(), '/');
    extend_str(&mut out, "/downloads/updates.json");
    string_from_chars(out.as_slice())
}

// ---------------------------------------------------------------------------
// Version comparison
// ---------------------------------------------------------------------------

/// The number a version part stands for: its value as a `u32`, or 0 when it
/// is not one.
pub open spec fn part_value(p: Seq<char>) -> nat {
    match parse_unsigned_spec(p, 10, 0xffff_ffff) {
        Some(v) => v,
        None => 0,
    }
}

/// The numeric parts of a dotted version string.
pub open spec fn version_parts(s: Seq<char>) -> Seq<nat> {
    split_on(s, '.').map_values(|p: Seq<char>| part_value(p))
}

/// Part `i` of a version, 0 past its end: a shorter version is padded with
/// zeros.
pub open spec fn part_at(v: Seq<nat>, i: int) -> nat {
    if 0 <= i < v.len() { v[i] } else { 0 }
}

/// `lat` is newer than `cur`: at the first part where they differ, `lat`
/// has the larger number.
pub open spec fn newer_parts(cur: Seq<nat>, lat: Seq<nat>) -> bool {
    exists|i: int| #![trigger part_at(lat, i), part_at(cur, i)]
        0 <= i && part_at(lat, i) > part_at(cur, i)
        && forall|j: int| 0 <= j < i ==> part_at(lat, j) == part_at(cur, j)
}

/// `latest` names a newer version than `current`.
pub open spec fn is_newer(current: Seq<char>, latest: Seq<char>) -> bool {
    newer_parts(version_parts(current), version_parts(latest))
}

/// The two versions agree on every part, zero padding included.
pub open spec fn same_version(a: Seq<char>, b: Seq<char>) -> bool {
    forall|i: int| 0 <= i ==> part_at(version_parts(a), i) == part_at(version_parts(b), i)
}

/// The numeric parts of a version string.
pub fn parse_version(s: &str) -> (res: Vec<u32>)
    ensures
        res@.len() == version_parts(s@).len(),
        forall|i: int| 0 <= i < res@.len() ==> res@[i] as nat == #[trigger] version_parts(s@)[i],
{
    let cs = chars_of(s);
    let pieces = split_chars(cs.as_slice(), '.');
    let mut res: Vec<u32> = Vec::new();
    let mut i: usize = 0;
    while i < pieces.len()
        invariant
            i <= pieces.len(),
            pieces@.len() == split_on(s@, '.').len(),
            forall|k: int| 0 <= k < pieces@.len() ==> (#[trigger] pieces@[k])@ == split_on(s@, '.')[k],
            res@.len() == i,
            forall|k: int| 0 <= k < i ==> res@[k] as nat == #[trigger] version_parts(s@)[k],
        decreases pieces.len() - i,
    {
        let v: u32 = match parse_unsigned(pieces[i].as_slice(), 10, 0xffff_ffff) {
            Some(v) => v as u32,
            None => 0,
        };
        assert(pieces@[i as int]@ == split_on(s@, '.')[i as int]);
        res.push(v);
        i += 1;
    }
    res
}

/// Part `i` of parsed version parts, 0 past the end.
fn part_of(v: &Vec<u32>, i: usize) -> (res: u32)
    ensures
        res as nat == part_at(v@.map_values(|x: u32| x as nat), i as int),
{
    if i < v.len() { v[i] } else { 0 }
}

/// Whether `latest` names a newer version than `current`, comparing the
/// dotted parts as numbers and padding the shorter version with zeros.
pub fn is_newer_version(current: &str, latest: &str) -> (res: bool)
    ensures
        res == is_newer(current@, latest@),
{
    let cur = parse_version(current);
    let lat = parse_version(latest);
    let ghost cv = version_parts(current@);
    let ghost lv = version_parts(latest@);
    assert(cur@.map_values(|x: u32| x as nat) =~= cv);
    assert(lat@.map_values(|x: u32| x as nat) =~= lv);
    let n = if cur.len() > lat.len() { cur.len() } else { lat.len() };
    let mut i: usize = 0;
    while i < n
        invariant
            i <= n,
            n == cur@.len() || n == lat@.len(),
            n >= cur@.len() && n >= lat@.len(),
            cur@.map_values(|x: u32| x as nat) == cv,
            lat@.map_values(|x: u32| x as nat) == lv,
            cv == version_parts(current@),
            lv == version_parts(latest@),
            forall|j: int| 0 <= j < i ==> part_at(lv, j) == part_at(cv, j),
        decreases n - i,
    {
        let c = part_of(&cur, i);
        let l = part_of(&lat, i);
        if l > c {
            assert(part_at(lv, i as int) > part_at(cv, i as int));
            return true;
        }
        if c > l {
            assert forall|k: int| 0 <= k && part_at(lv, k) > part_at(cv, k)
                implies !(forall|j: int| 0 <= j < k ==> part_at(lv, j) == part_at(cv, j)) by {
                if k > i {
                    assert(part_at(lv, i as int) != part_at(cv, i as int));
                }
            }
            return false;
        }
        i += 1;
    }
    assert forall|k: int| 0 <= k && part_at(lv, k) > part_at(cv, k)
        implies !(forall|j: int| 0 <= j < k ==> part_at(lv, j) == part_at(cv, j)) by {
        if k >= n {
        }
    }
    false
}

/// No version is newer than itself.
pub proof fn lemma_newer_irreflexive(v: Seq<char>)
    ensures
        !is_newer(v, v),
{
}

/// Of two versions, at most one is newer than the other.
pub proof fn lemma_newer_asymmetric(a: Seq<char>, b: Seq<char>)
    requires
        is_newer(a, b),
    ensures
        !is_newer(b, a),
{
    let (va, vb) = (version_parts(a), version_parts(b));
    let i = choose|i: int| #![trigger part_at(vb, i), part_at(va, i)]
        0 <= i && part_at(vb, i) > part_at(va, i) && forall|j: int| 0 <= j < i ==> part_at(vb, j) == part_at(va, j);
    assert forall|k: int| 0 <= k && part_at(va, k) > part_at(vb, k)
        implies !(forall|j: int| 0 <= j < k ==> part_at(va, j) == part_at(vb, j)) by {
        if k > i {
            assert(part_at(va, i) != part_at(vb, i));
        } else if k < i {
        }
    }
}

/// Being newer is transitive.
pub proof fn lemma_newer_transitive(a: Seq<char>, b: Seq<char>, c: Seq<char>)
    requires
        is_newer(a, b),
        is_newer(b, c),
    ensures
        is_newer(a, c),
{
    let (va, vb, vc) = (version_parts(a), version_parts(b), version_parts(c));
    let i = choose|i: int| #![trigger part_at(vb, i), part_at(va, i)]
        0 <= i && part_at(vb, i) > part_at(va, i) && forall|j: int| 0 <= j < i ==> part_at(vb, j) == part_at(va, j);
    let k = choose|k: int| #![trigger part_at(vc, k), part_at(vb, k)]
        0 <= k && part_at(vc, k) > part_at(vb, k) && forall|j: int| 0 <= j < k ==> part_at(vc, j) == part_at(vb, j);
    let m = if i < k { i } else { k };
    assert(part_at(vc, m) > part_at(va, m));
    assert(forall|j: int| 0 <= j < m ==> part_at(vc, j) == part_at(va, j));
}

/// Any two versions are the same, or one of them is newer than the other.
pub proof fn lemma_newer_total(a: Seq<char>, b: Seq<char>)
    ensures
        is_newer(a, b) || is_newer(b, a) || same_version(a, b),
{
    let (va, vb) = (version_parts(a), version_parts(b));
    if !same_version(a, b) {
        let d = choose|i: int| 0 <= i && part_at(va, i) != part_at(vb, i);
        let first = lemma_first_difference(va, vb, d);
        if part_at(vb, first) > part_at(va, first) {
            assert(is_newer(a, b));
        } else {
            assert(is_newer(b, a));
        }
    }
}

/// Appending `.0` to a version adds one zero part and changes no other.
proof fn lemma_trailing_zero_parts(s: Seq<char>)
    ensures
        version_parts(s + ".0"@) == version_parts(s).push(0),
{
    reveal_strlit(".0");
    let dot = s + seq!['.'];
    let t = s + ".0"@;
    assert(".0"@ =~= seq!['.', '0']);
    assert(t.drop_last() =~= dot);
    assert(t.last() == '0');
    assert(dot.drop_last() =~= s);
    assert(dot.last() == '.');
    lemma_split_nonempty(s, '.');
    let ps = split_on(s, '.');
    assert(split_on(dot, '.') == ps.push(Seq::<char>::empty()));
    let zero = seq!['0'];
    assert(Seq::<char>::empty().push('0') =~= zero);
    assert(split_on(t, '.') =~= ps.push(zero));
    assert(part_value(zero) == 0) by {
        assert(zero.drop_last() =~= Seq::<char>::empty());
        assert(zero.last() == '0');
        assert(('0' as u32) == 48);
        assert(digit_of('0', 10) == Some(0nat));
        assert(digits_value(Seq::<char>::empty(), 10) == 0);
        assert(digits_value(zero, 10) == 0);
    }
    assert(version_parts(t) =~= version_parts(s).push(0));
}

/// A zero part at the end is the same as no part: the padded parts agree
/// everywhere.
proof fn lemma_zero_padding(v: Seq<nat>)
    ensures
        forall|i: int| #[trigger] part_at(v.push(0), i) == part_at(v, i),
{
}

/// A trailing `.0` never changes the comparison: `1.2.0` is exactly as new
/// as `1.2`, on either side of the comparison.
pub proof fn lemma_trailing_zero_ignored(x: Seq<char>, s: Seq<char>)
    ensures
        is_newer(x, s + ".0"@) == is_newer(x, s),
        is_newer(s + ".0"@, x) == is_newer(s, x),
        same_version(s + ".0"@, s),
{
    lemma_trailing_zero_parts(s);
    let vs = version_parts(s);
    let vz = version_parts(s + ".0"@);
    let vx = version_parts(x);
    lemma_zero_padding(vs);
    assert(forall|i: int| #[trigger] part_at(vz, i) == part_at(vs, i));
    if is_newer(x, s + ".0"@) {
        let i = choose|i: int| #![trigger part_at(vz, i), part_at(vx, i)]
            0 <= i && part_at(vz, i) > part_at(vx, i) && forall|j: int| 0 <= j < i ==> part_at(vz, j) == part_at(vx, j);
        assert(part_at(vs, i) > part_at(vx, i));
        assert(forall|j: int| 0 <= j < i ==> part_at(vs, j) == part_at(vx, j));
    }
    if is_newer(x, s) {
        let i = choose|i: int| #![trigger part_at(vs, i), part_at(vx, i)]
            0 <= i && part_at(vs, i) > part_at(vx, i) && forall|j: int| 0 <= j < i ==> part_at(vs, j) == part_at(vx, j);
        assert(part_at(vz, i) > part_at(vx, i));
        assert(forall|j: int| 0 <= j < i ==> part_at(vz, j) == part_at(vx, j));
    }
    if is_newer(s + ".0"@, x) {
        let i = choose|i: int| #![trigger part_at(vx, i), part_at(vz, i)]
            0 <= i && part_at(vx, i) > part_at(vz, i) && forall|j: int| 0 <= j < i ==> part_at(vx, j) == part_at(vz, j);
        assert(part_at(vx, i) > part_at(vs, i));
        assert(forall|j: int| 0 <= j < i ==> part_at(vx, j) == part_at(vs, j));
    }
    if is_newer(s, x) {
        let i = choose|i: int| #![trigger part_at(vx, i), part_at(vs, i)]
            0 <= i && part_at(vx, i) > part_at(vs, i) && forall|j: int| 0 <= j < i ==> part_at(vx, j) == part_at(vs, j);
        assert(part_at(vx, i) > part_at(vz, i));
        assert(forall|j: int| 0 <= j < i ==> part_at(vx, j) == part_at(vz, j));
    }
}

/// The first part at which two versions differ, below a known difference.
proof fn lemma_first_difference(va: Seq<nat>, vb: Seq<nat>, d: int) -> (first: int)
    requires
        0 <= d,
        part_at(va, d) != part_at(vb, d),
    ensures
        0 <= first <= d,
        part_at(va, first) != part_at(vb, first),
        forall|j: int| 0 <= j < first ==> part_at(va, j) == part_at(vb, j),
    decreases d,
{
    if exists|j: int| 0 <= j < d && part_at(va, j) != part_at(vb, j) {
        let j = choose|j: int| 0 <= j < d && part_at(va, j) != part_at(vb, j);
        lemma_first_difference(va, vb, j)
    } else {
        d
    }
}

// ---------------------------------------------------------------------------
// Choosing and fetching a package
// ---------------------------------------------------------------------------

/// One entry of the update manifest.
pub struct UpdatePackage {
    pub app_type: String,
    pub build_type: String,
    pub version: String,
    pub url: String,
    pub md5: String,
}

/// The position of the first package built for this application and build
/// type, if any.
pub open spec fn first_matching(pkgs: Seq<UpdatePackage>, app_type: Seq<char>, build_type: Seq<char>) -> Option<int> {
    if exists|i: int| 0 <= i < pkgs.len() && pkgs[i].app_type@ == app_type && pkgs[i].build_type@ == build_type {
        Some(choose|i: int| 0 <= i < pkgs.len() && pkgs[i].app_type@ == app_type && pkgs[i].build_type@ == build_type
            && forall|j: int| 0 <= j < i ==> !(pkgs[j].app_type@ == app_type && pkgs[j].build_type@ == build_type))
    } else {
        None
    }
}

/// The update to offer: the first package for this application and build
/// type, when its version is newer than the running one.
pub open spec fn chosen_update(pkgs: Seq<UpdatePackage>, app_type: Seq<char>, build_type: Seq<char>, current: Seq<char>) -> Option<int> {
    match first_matching(pkgs, app_type, build_type) {
        Some(i) => if is_newer(current, pkgs[i].version@) { Some(i) } else { None },
        None => None,
    }
}

/// Picks the package to offer from a manifest: the first one for this
/// application and build type, and only when it is newer than `current`.
/// Gives its position in `pkgs`.
pub fn select_update(pkgs: &[UpdatePackage], app_type: &str, build_type: &str, current: &str) -> (res: Option<usize>)
    ensures
        res == (match chosen_update(pkgs@, app_type@, build_type@, current@) {
            Some(i) => Some(i as usize),
            None => None::<usize>,
        }),
{
    let mut i: usize = 0;
    while i < pkgs.len()
        invariant
            i <= pkgs.len(),
            forall|j: int| 0 <= j < i ==> !(pkgs@[j].app_type@ == app_type@ && pkgs@[j].build_type@ == build_type@),
        decreases pkgs.len() - i,
    {
        if str_eq(pkgs[i].app_type.as_str(), app_type) && str_eq(pkgs[i].build_type.as_str(), build_type) {
            proof {
                let ghost p = pkgs@;
                assert(p[i as int].app_type@ == app_type@ && p[i as int].build_type@ == build_type@);
                let c = choose|c: int| 0 <= c < p.len() && p[c].app_type@ == app_type@ && p[c].build_type@ == build_type@
                    && forall|j: int| 0 <= j < c ==> !(p[j].app_type@ == app_type@ && p[j].build_type@ == build_type@);
                if c < i {
                } else if c > i {
                }
                assert(first_matching(p, app_type@, build_type@) == Some(i as int));
            }
            if is_newer_version(current, pkgs[i].version.as_str()) {
                return Some(i);
            }
            return None;
        }
        i += 1;
    }
    None
}

/// The server part of the manifest address: everything before the
/// manifest path, or the whole address when the path is not in it.
pub open spec fn base_url(updates_url: Seq<char>) -> Seq<char> {
    match first_occurrence(updates_url, manifest_path()) {
        Some(i) => updates_url.take(i),
        None => updates_url,
    }
}

/// Where a package is downloaded from: a package address that starts with
/// `/` is relative to the server of the manifest; any other is used as it is.
pub open spec fn download_url_spec(updates_url: Seq<char>, pkg_url: Seq<char>) -> Seq<char> {
    if starts_with(pkg_url, "/"@) { base_url(updates_url) + pkg_url } else { pkg_url }
}

/// The address to download a package from.
pub fn download_url(updates_url: &str, pkg_url: &str) -> (res: String)
    ensures
        res@ == download_url_spec(updates_url@, pkg_url@),
{
    let u = chars_of(updates_url);
    let p = chars_of(pkg_url);
    let slash = chars_of("/");
    if !has_prefix(p.as_slice(), slash.as_slice()) {
        return pkg_url.to_owned();
    }
    let path = chars_of("/downloads/updates.json");
    let mut out: Vec<char> = Vec::new();
    match find_chars(u.as_slice(), path.as_slice()) {
        Some(i) => {
            let mut k: usize = 0;
            while k < i
                invariant
                    k <= i,
                    occurs_at_bound(u@, i as int),
                    out@ == u@.take(k as int),
                decreases i - k,
            {
                out.push(u[k]);
                assert(u@.take(k + 1) =~= u@.take(k as int).push(u@[k as int]));
                k += 1;
            }
        },
        None => {
            extend_chars(&mut out, u.as_slice());
        },
    }
    extend_chars(&mut out, p.as_slice());
    string_from_chars(out.as_slice())
}

/// `i` is a position inside `s`.
spec fn occurs_at_bound(s: Seq<char>, i: int) -> bool {
    0 <= i <= s.len()
}

/// The name a downloaded package is saved under: prefix, `-update-`, the
/// version, a dot and the last dot-separated part of the download address.
pub open spec fn update_file_name_spec(prefix: Seq<char>, version: Seq<char>, pkg_url: Seq<char>) -> Seq<char> {
    prefix + "-update-"@ + version + "."@ + split_on(pkg_url, '.').last()
}

/// The file name for a downloaded package.
pub fn update_file_name(prefix: &str, version: &str, pkg_url: &str) -> (res: String)
    ensures
        res@ == update_file_name_spec(prefix@, version@, pkg_url@),
{
    let u = chars_of(pkg_url);
    let parts = split_chars(u.as_slice(), '.');
    proof { lemma_split_nonempty(u@, '.'); }
    let mut out = chars_of(prefix);
    extend_str(&mut out, "-update-");
    extend_str(&mut out, version);
    extend_str(&mut out, ".");
    let last = parts.len() - 1;
    extend_chars(&mut out, parts[last].as_slice());
    string_from_chars(out.as_slice())
}

// ---------------------------------------------------------------------------
// Checksums
// ---------------------------------------------------------------------------

/// What `md5::compute` returns for a byte string: its 16-byte MD5 digest.
pub uninterp spec fn md5_of(data: Seq<u8>) -> Seq<u8>;

/// The MD5 digest of `data`, computed by `md5::compute`.
#[verifier::external_body]
fn md5_digest(data: &[u8]) -> (res: Vec<u8>)
    ensures
        res@ == md5_of(data@),
        res@.len() == 16,
{
    md5::compute(data).0.to_vec()
}

/// A download whose checksum is not the published one.
pub struct ChecksumMismatch {
    pub expected: String,
    pub got: String,
}

/// The published checksum matches the digest: it is empty once trimmed (no
/// checksum published), or equal to the digest's hexadecimal form up to
/// ASCII case.
pub open spec fn checksum_accepts(expected_md5: Seq<char>, digest: Seq<u8>) -> bool {
    trim(expected_md5).len() == 0 || eq_ignore_ascii_case(lower_hex(digest), trim(expected_md5))
}

/// Compares a digest with the published checksum; a mismatch carries the
/// trimmed published checksum and the digest in lowercase hexadecimal.
pub fn checksum_verdict(expected_md5: &str, digest: &[u8]) -> (res: Result<(), ChecksumMismatch>)
    ensures
        res is Ok <==> checksum_accepts(expected_md5@, digest@),
        res matches Err(m) ==> m.expected@ == trim(expected_md5@) && m.got@ == lower_hex(digest@),
{
    let got = lower_hex_string(digest);
    let e = chars_of(expected_md5);
    let expected = trim_chars(e.as_slice());
    if expected.len() == 0 {
        return Ok(());
    }
    let g = chars_of(got.as_str());
    if eq_ignore_ascii_case_chars(g.as_slice(), expected.as_slice()) {
        Ok(())
    } else {
        Err(ChecksumMismatch { expected: string_from_chars(expected.as_slice()), got })
    }
}

/// Checks downloaded bytes against the published checksum, computing their
/// MD5 digest.
pub fn verify_download(expected_md5: &str, data: &[u8]) -> (res: Result<(), ChecksumMismatch>)
    ensures
        res is Ok <==> checksum_accepts(expected_md5@, md5_of(data@)),
        res matches Err(m) ==> m.expected@ == trim(expected_md5@) && m.got@ == lower_hex(md5_of(data@)),
{
    let digest = md5_digest(data);
    checksum_verdict(expected_md5, digest.as_slice())
}

/// How an update check ended.
pub enum CheckOutcome {
    /// A newer package was found, of this version.
    Found { version: String },
    /// The running version is the newest.
    UpToDate,
    /// The check failed with this message.
    Error(String),
    /// The check was dropped before it answered.
    Cancelled,
}

/// What the updater dialog is told.
pub enum UpdaterReply {
    UpdateAvailable { version: String },
    UpToDate,
    Failed(String),
    Rejected { expected: String, got: String },
    /// Install the downloaded package.
    Install,
    /// Tell the dialog nothing; a failure of an automatic check is only
    /// logged, with this message.
    Quiet { log: Option<String> },
}

/// What the updater dialog is told when a check ends: a found update
/// always; being up to date, a failure or a cancelled check only when the
/// user asked for the check (an automatic check logs its failure).
pub fn check_reply(catalog: &crate::i18n::Catalog, manual: bool, outcome: CheckOutcome) -> (res: UpdaterReply)
    ensures
        match outcome {
            CheckOutcome::Found { version } => (res matches UpdaterReply::UpdateAvailable { version: v } && v@ == version@),
            CheckOutcome::UpToDate => if manual { res is UpToDate } else { (res matches UpdaterReply::Quiet { log } && log is None) },
            CheckOutcome::Error(e) => if manual { (res matches UpdaterReply::Failed(m) && m@ == e@) }
                else { (res matches UpdaterReply::Quiet { log: Some(l) } && l@ == e@) },
            CheckOutcome::Cancelled => if manual { (res matches UpdaterReply::Failed(m)
                && m@ == crate::i18n::translate(catalog@, "updater.check_cancelled"@)) }
                else { (res matches UpdaterReply::Quiet { log } && log is None) },
        },
{
    match outcome {
        CheckOutcome::Found { version } => UpdaterReply::UpdateAvailable { version },
        CheckOutcome::UpToDate => if manual { UpdaterReply::UpToDate } else { UpdaterReply::Quiet { log: None } },
        CheckOutcome::Error(e) => if manual { UpdaterReply::Failed(e) } else { UpdaterReply::Quiet { log: Some(e) } },
        CheckOutcome::Cancelled => if manual {
            UpdaterReply::Failed(catalog.tr("updater.check_cancelled"))
        } else {
            UpdaterReply::Quiet { log: None }
        },
    }
}

/// How a download ended.
pub enum DownloadOutcome {
    /// The bytes were saved and match their checksum.
    Saved,
    /// The bytes do not match the published checksum.
    Mismatch(ChecksumMismatch),
    /// The download failed with this message.
    Error(String),
    /// The download was dropped before it ended.
    Cancelled,
}

/// What the updater dialog is told when a download ends.
pub fn download_reply(catalog: &crate::i18n::Catalog, outcome: DownloadOutcome) -> (res: UpdaterReply)
    ensures
        match outcome {
            DownloadOutcome::Saved => res is Install,
            DownloadOutcome::Mismatch(m) => (res matches UpdaterReply::Rejected { expected, got }
                && expected@ == m.expected@ && got@ == m.got@),
            DownloadOutcome::Error(e) => (res matches UpdaterReply::Failed(f) && f@ == e@),
            DownloadOutcome::Cancelled => (res matches UpdaterReply::Failed(f)
                && f@ == crate::i18n::translate(catalog@, "updater.download_cancelled"@)),
        },
{
    match outcome {
        DownloadOutcome::Saved => UpdaterReply::Install,
        DownloadOutcome::Mismatch(m) => UpdaterReply::Rejected { expected: m.expected, got: m.got },
        DownloadOutcome::Error(e) => UpdaterReply::Failed(e),
        DownloadOutcome::Cancelled => UpdaterReply::Failed(catalog.tr("updater.download_cancelled")),
    }
}

} // verus!
