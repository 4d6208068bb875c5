//! The registry browser: the tree of keys as it is loaded level by level,
//! the values of the selected key, and the text a value is edited as and
//! read back from.
use vstd::prelude::*;
use crate::paths::{normalize_key_path, normalize_path, path_parts, split_path, strings_view};
use crate::text::{
    chars_of, string_from_chars, str_eq, extend_str, extend_chars, decimal, decimal_string, parse_unsigned,
    parse_unsigned_spec, words, split_words, split_str, split_chars_by, join_with, join_chars, digit_char,
    digits_value, all_digits, digit_of, starts_with, has_prefix,
    contains_seq, occurs_at, first_occurrence, lemma_split_str_pieces, lemma_first_occurrence_found,
};

verus! {

// ---------------------------------------------------------------------------
// Values
// ---------------------------------------------------------------------------

/// The data of a registry value.
pub enum RegistryValueData {
    String(String),
    DWord(u32),
    QWord(u64),
    Binary(Vec<u8>),
    MultiString(Vec<String>),
    ExpandString(String),
    Unknown,
}

/// A value of a key: its name (empty for the default value) and data.
pub struct RegistryValueInfo {
    pub name: String,
    pub data: RegistryValueData,
}

/// The data of a value as plain values.
pub enum DataView {
    Str(Seq<char>),
    DWord(u32),
    QWord(u64),
    Binary(Seq<u8>),
    Multi(Seq<Seq<char>>),
    Expand(Seq<char>),
    Unknown,
}

impl View for RegistryValueData {
    type V = DataView;

    open spec fn view(&self) -> DataView {
        match self {
            RegistryValueData::String(s) => DataView::Str(s@),
            RegistryValueData::DWord(d) => DataView::DWord(*d),
            RegistryValueData::QWord(q) => DataView::QWord(*q),
            RegistryValueData::Binary(b) => DataView::Binary(b@),
            RegistryValueData::MultiString(m) => DataView::Multi(strings_view(m@)),
            RegistryValueData::ExpandString(s) => DataView::Expand(s@),
            RegistryValueData::Unknown => DataView::Unknown,
        }
    }
}

/// The translation key of a value's type.
pub fn type_label_key(data: &RegistryValueData) -> (res: &'static str)
    ensures
        res@ == (match data@ {
            DataView::Str(_) => "registry.type_sz"@,
            DataView::DWord(_) => "registry.type_dword"@,
            DataView::QWord(_) => "registry.type_qword"@,
            DataView::Binary(_) => "registry.type_binary"@,
            DataView::Multi(_) => "registry.type_multi_sz"@,
            DataView::Expand(_) => "registry.type_expand_sz"@,
            DataView::Unknown => "registry.type_unknown"@,
        }),
{
    match data {
        RegistryValueData::String(_) => "registry.type_sz",
        RegistryValueData::DWord(_) => "registry.type_dword",
        RegistryValueData::QWord(_) => "registry.type_qword",
        RegistryValueData::Binary(_) => "registry.type_binary",
        RegistryValueData::MultiString(_) => "registry.type_multi_sz",
        RegistryValueData::ExpandString(_) => "registry.type_expand_sz",
        RegistryValueData::Unknown => "registry.type_unknown",
    }
}

/// The uppercase hexadecimal digit for a value below sixteen.
pub open spec fn upper_hex_digit(d: nat) -> char {
    if d < 10 { ((48 + d) as u32) as char } else { ((55 + d) as u32) as char }
}

/// A byte as two uppercase hexadecimal digits.
pub open spec fn byte_hex(b: u8) -> Seq<char> {
    seq![upper_hex_digit((b / 16) as nat), upper_hex_digit((b % 16) as nat)]
}

/// The bytes as uppercase hexadecimal pairs.
pub open spec fn hex_pairs(bytes: Seq<u8>) -> Seq<Seq<char>> {
    bytes.map_values(|b: u8| byte_hex(b))
}

/// The separator a multi-string is edited with: a backslash and `n`.
pub open spec fn multi_sep() -> Seq<char> {
    "\\n"@
}

/// The text a value is edited as: strings as they are, numbers in decimal,
/// bytes as uppercase hexadecimal pairs separated by spaces, the strings of
/// a multi-string joined by a backslash and `n`; nothing for unknown data.
pub open spec fn edit_text_spec(d: DataView) -> Seq<char> {
    match d {
        DataView::Str(s) => s,
        DataView::Expand(s) => s,
        DataView::DWord(v) => decimal(v as nat),
        DataView::QWord(v) => decimal(v as nat),
        DataView::Binary(b) => join_with(hex_pairs(b), " "@),
        DataView::Multi(m) => join_with(m, multi_sep()),
        DataView::Unknown => Seq::empty(),
    }
}

/// The bytes of the words that read as hexadecimal bytes, in order.
pub open spec fn parse_hex_words(ws: Seq<Seq<char>>) -> Seq<u8>
    decreases ws.len(),
{
    if ws.len() == 0 {
        Seq::empty()
    } else {
        let prev = parse_hex_words(ws.drop_last());
        match parse_unsigned_spec(ws.last(), 16, 255) {
            Some(v) => prev.push(v as u8),
            None => prev,
        }
    }
}

/// The data an edited text gives a value: numbers that read as numbers of
/// the value's width (else the old number), strings as typed, a
/// multi-string split at each backslash-`n`, the hexadecimal bytes among
/// the words of a binary value; unknown data stays.
pub open spec fn edited_spec(d: DataView, text: Seq<char>) -> DataView {
    match d {
        DataView::DWord(v) => match parse_unsigned_spec(text, 10, 0xffff_ffff) {
            Some(n) => DataView::DWord(n as u32),
            None => DataView::DWord(v),
        },
        DataView::QWord(v) => match parse_unsigned_spec(text, 10, 0xffff_ffff_ffff_ffff) {
            Some(n) => DataView::QWord(n as u64),
            None => DataView::QWord(v),
        },
        DataView::Str(_) => DataView::Str(text),
        DataView::Expand(_) => DataView::Expand(text),
        DataView::Multi(_) => DataView::Multi(split_str(text, multi_sep())),
        DataView::Binary(_) => DataView::Binary(parse_hex_words(words(text))),
        DataView::Unknown => DataView::Unknown,
    }
}

fn upper_hex_exec(d: u8) -> (c: char)
    requires
        d < 16,
    ensures
        c == upper_hex_digit(d as nat),
{
    if d < 10 { (48 + d) as char } else { (55 + d) as char }
}

/// The text a value is edited as.
pub fn edit_text(data: &RegistryValueData) -> (res: String)
    ensures
        res@ == edit_text_spec(data@),
{
    match data {
        RegistryValueData::String(s) => s.clone(),
        RegistryValueData::ExpandString(s) => s.clone(),
        RegistryValueData::DWord(v) => decimal_string(*v as u64),
        RegistryValueData::QWord(v) => decimal_string(*v),
        RegistryValueData::Binary(b) => {
            let mut pairs: Vec<Vec<char>> = Vec::new();
            let mut i: usize = 0;
            while i < b.len()
                invariant
                    i <= b@.len(),
                    pairs@.len() == i,
                    forall|k: int| 0 <= k < i ==> (#[trigger] pairs@[k])@ == byte_hex(b@[k]),
                decreases b.len() - i,
            {
                let mut p: Vec<char> = Vec::new();
                p.push(upper_hex_exec(b[i] / 16));
                p.push(upper_hex_exec(b[i] % 16));
                assert(p@ =~= byte_hex(b@[i as int]));
                pairs.push(p);
                i += 1;
            }
            assert(pairs@.map_values(|p: Vec<char>| p@) =~= hex_pairs(b@));
            let sp = chars_of(" ");
            let out = join_chars(pairs.as_slice(), sp.as_slice());
            string_from_chars(out.as_slice())
        },
        RegistryValueData::MultiString(m) => {
            let mut parts: Vec<Vec<char>> = Vec::new();
            let mut i: usize = 0;
            while i < m.len()
                invariant
                    i <= m@.len(),
                    parts@.len() == i,
                    forall|k: int| 0 <= k < i ==> (#[trigger] parts@[k])@ == m@[k]@,
                decreases m.len() - i,
            {
                parts.push(chars_of(m[i].as_str()));
                i += 1;
            }
            assert(parts@.map_values(|p: Vec<char>| p@) =~= strings_view(m@));
            let sep = chars_of("\\n");
            let out = join_chars(parts.as_slice(), sep.as_slice());
            string_from_chars(out.as_slice())
        },
        RegistryValueData::Unknown => String::new(),
    }
}

/// The data a value gets from its edited text.
pub fn edited_data(data: &RegistryValueData, text: &str) -> (res: RegistryValueData)
    ensures
        res@ == edited_spec(data@, text@),
{
    let t = chars_of(text);
    match data {
        RegistryValueData::DWord(v) => match parse_unsigned(t.as_slice(), 10, 0xffff_ffff) {
            Some(n) => RegistryValueData::DWord(n as u32),
            None => RegistryValueData::DWord(*v),
        },
        RegistryValueData::QWord(v) => match parse_unsigned(t.as_slice(), 10, 0xffff_ffff_ffff_ffff) {
            Some(n) => RegistryValueData::QWord(n),
            None => RegistryValueData::QWord(*v),
        },
        RegistryValueData::String(_) => RegistryValueData::String(text.to_owned()),
        RegistryValueData::ExpandString(_) => RegistryValueData::ExpandString(text.to_owned()),
        RegistryValueData::MultiString(_) => {
            let sep = chars_of("\\n");
            proof { reveal_strlit("\\n"); }
            let pieces = split_chars_by(t.as_slice(), sep.as_slice());
            let mut out: Vec<String> = Vec::new();
            let mut i: usize = 0;
            while i < pieces.len()
                invariant
                    i <= pieces@.len(),
                    out@.len() == i,
                    forall|k: int| 0 <= k < i ==> (#[trigger] out@[k])@ == pieces@[k]@,
                decreases pieces.len() - i,
            {
                out.push(string_from_chars(pieces[i].as_slice()));
                i += 1;
            }
            assert(strings_view(out@) =~= split_str(t@, sep@));
            RegistryValueData::MultiString(out)
        },
        RegistryValueData::Binary(_) => {
            let ws = split_words(t.as_slice());
            let mut out: Vec<u8> = Vec::new();
            let mut i: usize = 0;
            let ghost wv = words(t@);
            assert(wv.take(0) =~= Seq::<Seq<char>>::empty());
            while i < ws.len()
                invariant
                    i <= ws@.len(),
                    ws@.len() == wv.len(),
                    wv == words(t@),
                    forall|k: int| 0 <= k < ws@.len() ==> (#[trigger] ws@[k])@ == wv[k],
                    out@ == parse_hex_words(wv.take(i as int)),
                decreases ws.len() - i,
            {
                assert(wv.take(i + 1).drop_last() =~= wv.take(i as int));
                assert(wv.take(i + 1).last() == ws@[i as int]@);
                match parse_unsigned(ws[i].as_slice(), 16, 255) {
                    Some(v) => out.push(v as u8),
                    None => {},
                }
                i += 1;
            }
            assert(wv.take(ws@.len() as int) =~= wv);
            RegistryValueData::Binary(out)
        },
        RegistryValueData::Unknown => RegistryValueData::Unknown,
    }
}

/// A decimal representation reads back as the number.
pub proof fn lemma_decimal_parses(n: nat, max: nat)
    requires
        n <= max,
    ensures
        parse_unsigned_spec(decimal(n), 10, max) == Some(n),
{
    lemma_decimal_digits(n);
    assert(decimal(n)[0] != '+');
}

proof fn lemma_decimal_digits(n: nat)
    ensures
        decimal(n).len() > 0,
        all_digits(decimal(n), 10),
        digits_value(decimal(n), 10) == n,
        decimal(n)[0] != '+',
    decreases n,
{
    if n < 10 {
        assert(decimal(n) == seq![digit_char(n)]);
        assert(decimal(n).drop_last() =~= Seq::<char>::empty());
        assert(digit_of(digit_char(n), 10) == Some(n));
        assert(digits_value(Seq::<char>::empty(), 10) == 0);
    } else {
        lemma_decimal_digits(n / 10);
        let d = decimal(n);
        assert(d == decimal(n / 10).push(digit_char(n % 10)));
        assert(d.drop_last() =~= decimal(n / 10));
        assert(digit_of(digit_char(n % 10), 10) == Some(n % 10));
        assert(digits_value(d, 10) == (n / 10) * 10 + n % 10);
        assert((n / 10) * 10 + n % 10 == n) by (nonlinear_arith);
        assert forall|k: int| 0 <= k < d.len() implies #[trigger] digit_of(d[k], 10) is Some by {
            if k < d.len() - 1 {
                assert(d[k] == decimal(n / 10)[k]);
            }
        }
        assert(d[0] == decimal(n / 10)[0]);
    }
}

/// Editing a number without changing its text keeps the number.
pub proof fn lemma_number_edit_round_trip(d: DataView)
    requires
        d is DWord || d is QWord,
    ensures
        edited_spec(d, edit_text_spec(d)) == d,
{
    match d {
        DataView::DWord(v) => lemma_decimal_parses(v as nat, 0xffff_ffff),
        DataView::QWord(v) => lemma_decimal_parses(v as nat, 0xffff_ffff_ffff_ffff),
        _ => {},
    }
}

/// Editing a string without changing its text keeps the string.
pub proof fn lemma_string_edit_round_trip(d: DataView)
    requires
        d is Str || d is Expand,
    ensures
        edited_spec(d, edit_text_spec(d)) == d,
{
}

/// Editing a multi-string splits the typed text at every backslash-`n`:
/// the strings it gives, joined with backslash-`n`, are exactly the typed
/// text, and none of them still holds a backslash-`n`.
pub proof fn lemma_multi_edit_splits_text(m: Seq<Seq<char>>, text: Seq<char>)
    ensures
        edited_spec(DataView::Multi(m), text) matches DataView::Multi(ms) && {
            &&& ms.len() >= 1
            &&& join_with(ms, multi_sep()) == text
            &&& forall|i: int| 0 <= i < ms.len() ==> !contains_seq(#[trigger] ms[i], multi_sep())
        },
{
    reveal_strlit("\\n");
    lemma_split_str_pieces(text, multi_sep());
}

/// The first backslash-`n` of a first string, a backslash-`n` and more text
/// is the one after the first string, when that string holds none.
proof fn lemma_first_separator_after_piece(x: Seq<char>, more: Seq<char>)
    requires
        !contains_seq(x, multi_sep()),
    ensures
        first_occurrence(x + multi_sep() + more, multi_sep()) == Some(x.len() as int),
{
    reveal_strlit("\\n");
    let sep = multi_sep();
    let j = x + sep + more;
    assert(j.subrange(x.len() as int, x.len() as int + 2) =~= sep);
    assert(occurs_at(j, sep, x.len() as int));
    lemma_first_occurrence_found(j, sep);
    let at = first_occurrence(j, sep)->0;
    if at < x.len() {
        if at + 2 <= x.len() {
            assert(x.subrange(at, at + 2) =~= j.subrange(at, at + 2));
            assert(occurs_at(x, sep, at));
        } else {
            assert(j[at + 1] == sep[0]);
            assert(j.subrange(at, at + 2)[1] == j[at + 1]);
        }
    }
}

/// Editing a multi-string without changing its text gives the same
/// strings back, when there is at least one and none holds a
/// backslash-`n`.
pub proof fn lemma_multi_edit_round_trip(m: Seq<Seq<char>>)
    requires
        m.len() >= 1,
        forall|i: int| 0 <= i < m.len() ==> !contains_seq(#[trigger] m[i], multi_sep()),
    ensures
        edited_spec(DataView::Multi(m), edit_text_spec(DataView::Multi(m))) == DataView::Multi(m),
{
    lemma_split_rejoined(m);
}

/// One step of the round trip: the first string, then the strings after it.
#[verifier::rlimit(80)]
proof fn lemma_split_rejoined_step(m: Seq<Seq<char>>)
    requires
        m.len() >= 2,
        !contains_seq(m[0], multi_sep()),
        split_str(join_with(m.drop_first(), multi_sep()), multi_sep()) == m.drop_first(),
    ensures
        split_str(join_with(m, multi_sep()), multi_sep()) == m,
{
    let sep = multi_sep();
    assert(sep.len() == 2) by { reveal_strlit("\\n"); }
    let rest = m.drop_first();
    assert(m =~= seq![m[0]] + rest);
    crate::text::lemma_join_front(m[0], rest, sep);
    let more = join_with(rest, sep);
    let j = m[0] + sep + more;
    lemma_first_separator_after_piece(m[0], more);
    let at = m[0].len() as int;
    assert(j.take(at) =~= m[0]);
    assert(j.skip(at + 2) =~= more);
    crate::text::lemma_split_str_step(j, sep, at);
}

proof fn lemma_split_rejoined(m: Seq<Seq<char>>)
    requires
        m.len() >= 1,
        forall|i: int| 0 <= i < m.len() ==> !contains_seq(#[trigger] m[i], multi_sep()),
    ensures
        split_str(join_with(m, multi_sep()), multi_sep()) == m,
    decreases m.len(),
{
    let sep = multi_sep();
    assert(sep.len() == 2) by { reveal_strlit("\\n"); }
    if m.len() == 1 {
        assert(join_with(m, sep) == m[0]);
        assert(!contains_seq(m[0], sep));
        crate::text::lemma_split_str_whole(m[0], sep);
        assert(seq![m[0]] =~= m);
    } else {
        let rest = m.drop_first();
        assert forall|i: int| 0 <= i < rest.len() implies !contains_seq(#[trigger] rest[i], sep) by {
            assert(rest[i] == m[i + 1]);
        }
        lemma_split_rejoined(rest);
        assert(!contains_seq(m[0], sep));
        lemma_split_rejoined_step(m);
    }
}

/// The name a value row carries: `val:` and the value's name.
pub open spec fn value_row_name_spec(name: Seq<char>) -> Seq<char> {
    "val:"@ + name
}

/// The name of the value a row stands for: its name after `val:`.
pub open spec fn value_of_row_spec(row: Seq<char>) -> Option<Seq<char>> {
    if starts_with(row, "val:"@) { Some(row.skip(4)) } else { None }
}

/// The name a value's row carries.
pub fn value_row_name(name: &str) -> (res: String)
    ensures
        res@ == value_row_name_spec(name@),
{
    let mut c = chars_of("val:");
    extend_str(&mut c, name);
    string_from_chars(c.as_slice())
}

/// The value a row stands for.
pub fn value_of_row(row: &str) -> (res: Option<String>)
    ensures
        match res {
            Some(n) => value_of_row_spec(row@) == Some(n@),
            None => value_of_row_spec(row@) is None,
        },
{
    let r = chars_of(row);
    let p = chars_of("val:");
    proof { reveal_strlit("val:"); }
    if !has_prefix(r.as_slice(), p.as_slice()) {
        return None;
    }
    let rest = crate::text::skip_chars(r.as_slice(), 4);
    Some(string_from_chars(rest.as_slice()))
}

/// A value's row gives the value's name back.
pub proof fn lemma_value_row_round_trip(name: Seq<char>)
    ensures
        value_of_row_spec(value_row_name_spec(name)) == Some(name),
{
    reveal_strlit("val:");
    assert(("val:"@ + name).take(4) =~= "val:"@);
    assert(("val:"@ + name).skip(4) =~= name);
}

// ---------------------------------------------------------------------------
// The key tree
// ---------------------------------------------------------------------------

/// A row of the key tree, in display order: a key (or the empty
/// placeholder that lets an unloaded key be expanded), its depth, and
/// whether its subkeys were loaded.
pub struct KeyNode {
    pub name: String,
    pub path: String,
    pub depth: usize,
    pub loaded: bool,
}

/// A row of the key tree as plain values.
pub struct NodeView {
    pub name: Seq<char>,
    pub path: Seq<char>,
    pub depth: nat,
    pub loaded: bool,
}

impl View for KeyNode {
    type V = NodeView;

    open spec fn view(&self) -> NodeView {
        NodeView { name: self.name@, path: self.path@, depth: self.depth as nat, loaded: self.loaded }
    }
}

/// The rows of a tree.
pub open spec fn nodes_view(nodes: Seq<KeyNode>) -> Seq<NodeView> {
    nodes.map_values(|n: KeyNode| n@)
}

/// Where the rows below row `i` end: the first later row that is not
/// deeper, looking from `j` on.
pub open spec fn subtree_end_from(nodes: Seq<NodeView>, i: int, j: int) -> int
    decreases nodes.len() - j,
{
    if j >= nodes.len() {
        nodes.len() as int
    } else if nodes[j].depth <= nodes[i].depth {
        j
    } else {
        subtree_end_from(nodes, i, j + 1)
    }
}

/// The first row (in display order) with this path.
pub open spec fn first_node_with_path(nodes: Seq<NodeView>, path: Seq<char>) -> Option<int> {
    if exists|i: int| 0 <= i < nodes.len() && nodes[i].path == path {
        Some(choose|i: int| 0 <= i < nodes.len() && nodes[i].path == path && forall|k: int| 0 <= k < i ==> nodes[k].path != path)
    } else {
        None
    }
}

/// `s` without its leading `/`s.
pub open spec fn trim_leading_slashes(s: Seq<char>) -> Seq<char>
    decreases s.len(),
{
    if s.len() > 0 && s[0] == '/' { trim_leading_slashes(s.drop_first()) } else { s }
}

/// The row of a key path: the first with that path, else the first with
/// the path written with exactly one leading `/`.
pub open spec fn resolve_node_spec(nodes: Seq<NodeView>, path: Seq<char>) -> Option<int> {
    match first_node_with_path(nodes, path) {
        Some(i) => Some(i),
        None => first_node_with_path(nodes, "/"@ + trim_leading_slashes(path)),
    }
}

/// The rows for subkeys of `parent` at a depth: each key (not loaded)
/// followed by its placeholder one level deeper.
pub open spec fn key_rows(parent: Seq<char>, depth: nat, subkeys: Seq<Seq<char>>) -> Seq<NodeView>
    decreases subkeys.len(),
{
    if subkeys.len() == 0 {
        Seq::empty()
    } else {
        key_rows(parent, depth, subkeys.drop_last())
            + seq![
                NodeView { name: subkeys.last(), path: parent + "/"@ + subkeys.last(), depth, loaded: false },
                NodeView { name: Seq::empty(), path: Seq::empty(), depth: depth + 1, loaded: false },
            ]
    }
}

/// The tree after the subkeys of a (normalized) key path arrive: for the
/// root the tree is replaced by the top-level keys; for a key that is in
/// the tree its rows below are replaced by the new subkeys and it is marked
/// loaded; otherwise the tree is unchanged. (A key nested so deep that its
/// depth does not leave room for two more levels in a `usize` is left as it
/// is.)
pub open spec fn apply_entries_spec(nodes: Seq<NodeView>, norm: Seq<char>, subkeys: Seq<Seq<char>>) -> Seq<NodeView> {
    if norm == "/"@ {
        key_rows(Seq::empty(), 0, subkeys)
    } else {
        match resolve_node_spec(nodes, norm) {
            Some(i) => if nodes[i].depth + 1 >= usize::MAX {
                nodes
            } else {
                nodes.take(i) + seq![NodeView { loaded: true, ..nodes[i] }]
                    + key_rows(norm, nodes[i].depth + 1, subkeys) + nodes.skip(subtree_end_from(nodes, i, i + 1))
            },
            None => nodes,
        }
    }
}

fn find_node(nodes: &Vec<KeyNode>, path: &str) -> (res: Option<usize>)
    ensures
        first_node_with_path(nodes_view(nodes@), path@) == (match res { Some(i) => Some(i as int), None => None::<int> }),
        res matches Some(i) ==> i < nodes@.len(),
{
    let ghost nv = nodes_view(nodes@);
    let mut k: usize = 0;
    while k < nodes.len()
        invariant
            k <= nodes@.len(),
            nv == nodes_view(nodes@),
            forall|j: int| 0 <= j < k ==> nv[j].path != path@,
        decreases nodes.len() - k,
    {
        assert(nv[k as int] == nodes@[k as int]@);
        if str_eq(nodes[k].path.as_str(), path) {
            proof {
                let c = choose|c: int| 0 <= c < nv.len() && nv[c].path == path@ && forall|j: int| 0 <= j < c ==> nv[j].path != path@;
                if c < k {
                } else if c > k {
                }
            }
            return Some(k);
        }
        k += 1;
    }
    None
}

fn trim_leading_slash_chars(s: &[char]) -> (res: Vec<char>)
    ensures
        res@ == trim_leading_slashes(s@),
{
    let mut i: usize = 0;
    assert(s@.skip(0) =~= s@);
    while i < s.len() && s[i] == '/'
        invariant
            i <= s@.len(),
            trim_leading_slashes(s@.skip(i as int)) == trim_leading_slashes(s@),
        decreases s.len() - i,
    {
        assert(s@.skip(i as int).drop_first() =~= s@.skip(i + 1));
        i += 1;
    }
    crate::text::skip_chars(s, i)
}

/// The row of a key path in the tree.
pub fn resolve_node(nodes: &Vec<KeyNode>, path: &str) -> (res: Option<usize>)
    ensures
        resolve_node_spec(nodes_view(nodes@), path@) == (match res { Some(i) => Some(i as int), None => None::<int> }),
        res matches Some(i) ==> i < nodes@.len(),
{
    match find_node(nodes, path) {
        Some(i) => Some(i),
        None => {
            let c = chars_of(path);
            let t = trim_leading_slash_chars(c.as_slice());
            let mut full = chars_of("/");
            extend_chars(&mut full, t.as_slice());
            let f = string_from_chars(full.as_slice());
            find_node(nodes, f.as_str())
        },
    }
}

fn push_key_rows(out: &mut Vec<KeyNode>, parent: &str, depth: usize, subkeys: &[String])
    requires
        depth < usize::MAX,
    ensures
        nodes_view(final(out)@) == nodes_view(old(out)@) + key_rows(parent@, depth as nat, strings_view(subkeys@)),
{
    let ghost sv = strings_view(subkeys@);
    let ghost base = nodes_view(out@);
    let mut i: usize = 0;
    assert(sv.take(0) =~= Seq::<Seq<char>>::empty());
    assert(nodes_view(out@) =~= base + key_rows(parent@, depth as nat, sv.take(0)));
    while i < subkeys.len()
        invariant
            i <= subkeys@.len(),
            depth < usize::MAX,
            sv == strings_view(subkeys@),
            nodes_view(out@) == base + key_rows(parent@, depth as nat, sv.take(i as int)),
        decreases subkeys.len() - i,
    {
        let mut p = chars_of(parent);
        extend_str(&mut p, "/");
        extend_str(&mut p, subkeys[i].as_str());
        let key = KeyNode { name: subkeys[i].clone(), path: string_from_chars(p.as_slice()), depth, loaded: false };
        let holder = KeyNode { name: String::new(), path: String::new(), depth: depth + 1, loaded: false };
        let ghost before = nodes_view(out@);
        out.push(key);
        out.push(holder);
        assert(sv.take(i + 1).drop_last() =~= sv.take(i as int));
        assert(sv.take(i + 1).last() == subkeys@[i as int]@);
        assert(nodes_view(out@) =~= before + seq![key@, holder@]);
        assert(base + key_rows(parent@, depth as nat, sv.take(i + 1)) =~= (base + key_rows(parent@, depth as nat, sv.take(i as int))) + seq![key@, holder@]);
        i += 1;
    }
    assert(sv.take(subkeys@.len() as int) =~= sv);
}

fn subtree_end(nodes: &Vec<KeyNode>, i: usize) -> (res: usize)
    requires
        i < nodes@.len(),
    ensures
        res as int == subtree_end_from(nodes_view(nodes@), i as int, i + 1),
        i < res <= nodes@.len(),
{
    let ghost nv = nodes_view(nodes@);
    let len = nodes.len();
    let mut j: usize = i + 1;
    while j < nodes.len() && nodes[j].depth > nodes[i].depth
        invariant
            i < j <= nodes@.len(),
            nv == nodes_view(nodes@),
            subtree_end_from(nv, i as int, j as int) == subtree_end_from(nv, i as int, i + 1),
        decreases nodes.len() - j,
    {
        j += 1;
    }
    j
}

/// Applies the subkeys of a normalized key path to the tree; gives the row
/// of the key when it was found (to expand it).
pub fn apply_entries(nodes: &mut Vec<KeyNode>, norm: &str, subkeys: &[String]) -> (res: Option<usize>)
    ensures
        nodes_view(final(nodes)@) == apply_entries_spec(nodes_view(old(nodes)@), norm@, strings_view(subkeys@)),
        norm@ != "/"@ && (res is None) ==> (resolve_node_spec(nodes_view(old(nodes)@), norm@) is None
            || nodes_view(old(nodes)@)[resolve_node_spec(nodes_view(old(nodes)@), norm@)->0].depth + 1 >= usize::MAX),
        res matches Some(i) ==> resolve_node_spec(nodes_view(old(nodes)@), norm@) == Some(i as int),
        norm@ == "/"@ ==> res is None,
{
    if str_eq(norm, "/") {
        proof { reveal_strlit(""); }
        assert(""@ =~= Seq::<char>::empty());
        let mut out: Vec<KeyNode> = Vec::new();
        assert(nodes_view(out@) =~= Seq::<NodeView>::empty());
        push_key_rows(&mut out, "", 0, subkeys);
        assert(nodes_view(out@) =~= key_rows(Seq::empty(), 0, strings_view(subkeys@)));
        *nodes = out;
        return None;
    }
    let ghost nv = nodes_view(nodes@);
    match resolve_node(nodes, norm) {
        Some(i) => {
            if nodes[i].depth >= usize::MAX - 1 {
                return None;
            }
            let end = subtree_end(nodes, i);
            let mut out: Vec<KeyNode> = Vec::new();
            let mut k: usize = 0;
            while k < i
                invariant
                    k <= i < nodes@.len(),
                    nv == nodes_view(nodes@),
                    nodes_view(out@) == nv.take(k as int),
                decreases i - k,
            {
                let n = &nodes[k];
                let x = KeyNode { name: n.name.clone(), path: n.path.clone(), depth: n.depth, loaded: n.loaded };
                let ghost before = nodes_view(out@);
                out.push(x);
                assert(nodes_view(out@) =~= before.push(x@));
                assert(x@ == nv[k as int]);
                assert(nv.take(k + 1) =~= nv.take(k as int).push(nv[k as int]));
                k += 1;
            }
            let n = &nodes[i];
            let x = KeyNode { name: n.name.clone(), path: n.path.clone(), depth: n.depth, loaded: true };
            let ghost before = nodes_view(out@);
            out.push(x);
            assert(nodes_view(out@) =~= before.push(x@));
            assert(nodes_view(out@) =~= nv.take(i as int) + seq![NodeView { loaded: true, ..nv[i as int] }]);
            push_key_rows(&mut out, norm, n.depth + 1, subkeys);
            let ghost mid = nodes_view(out@);
            let mut j: usize = end;
            while j < nodes.len()
                invariant
                    end <= j <= nodes@.len(),
                    nv == nodes_view(nodes@),
                    nodes_view(out@) == mid + nv.subrange(end as int, j as int),
                decreases nodes.len() - j,
            {
                let m = &nodes[j];
                let x = KeyNode { name: m.name.clone(), path: m.path.clone(), depth: m.depth, loaded: m.loaded };
                let ghost before = nodes_view(out@);
                out.push(x);
                assert(nodes_view(out@) =~= before.push(x@));
                assert(x@ == nv[j as int]);
                assert(mid + nv.subrange(end as int, j + 1) =~= (mid + nv.subrange(end as int, j as int)).push(nv[j as int]));
                j += 1;
            }
            assert(nv.subrange(end as int, nv.len() as int) =~= nv.skip(end as int));
            *nodes = out;
            Some(i)
        },
        None => None,
    }
}


// ---------------------------------------------------------------------------
// The browser's state
// ---------------------------------------------------------------------------

/// What the browser reports after drawing a listing: the listed path, how
/// many subkeys and values it shows, and whether the key is expanded.
pub struct Rendered {
    pub path: String,
    pub subkeys_shown: u32,
    pub values_shown: u32,
    pub expanded: bool,
}

/// The browser: the selected key and value, the values of the last
/// listing, the listing still to draw, and the key tree drawn so far.
pub struct RegistryState {
    pub selected_path: String,
    pub path_parts: Vec<String>,
    pub values: Vec<RegistryValueInfo>,
    pub selected_value: Option<String>,
    pub last_entries: Option<(String, Vec<String>)>,
    pub pending_clear: bool,
    pub tree: Vec<KeyNode>,
    pub values_shown: usize,
}

/// How many rows of `nodes` between `from` and `to` are at `depth`.
pub open spec fn count_at_depth(nodes: Seq<NodeView>, from: int, to: int, depth: nat) -> nat
    decreases to - from,
{
    if to <= from {
        0
    } else {
        count_at_depth(nodes, from, to - 1, depth) + if nodes[to - 1].depth == depth { 1nat } else { 0nat }
    }
}

fn count_depth(nodes: &Vec<KeyNode>, from: usize, to: usize, depth: usize) -> (res: usize)
    requires
        from <= to <= nodes@.len(),
    ensures
        res as nat == count_at_depth(nodes_view(nodes@), from as int, to as int, depth as nat),
        res <= to - from,
{
    let ghost nv = nodes_view(nodes@);
    let mut c: usize = 0;
    let mut k: usize = from;
    while k < to
        invariant
            from <= k <= to <= nodes@.len(),
            nv == nodes_view(nodes@),
            c as nat == count_at_depth(nv, from as int, k as int, depth as nat),
            c <= k - from,
        decreases to - k,
    {
        assert(nv[k as int].depth == nodes@[k as int].depth);
        if nodes[k].depth == depth {
            c += 1;
        }
        k += 1;
    }
    c
}

/// The text of an optional string.
pub open spec fn opt_text(o: Option<String>) -> Option<Seq<char>> {
    match o {
        Some(s) => Some(s@),
        None => None,
    }
}

impl RegistryState {
    /// A browser with nothing loaded, at the root.
    pub fn new() -> (res: RegistryState)
        ensures
            res.selected_path@ == "/"@,
            res.path_parts@.len() == 0,
            res.values@.len() == 0,
            res.selected_value is None,
            res.last_entries is None,
            !res.pending_clear,
            res.tree@.len() == 0,
            res.values_shown == 0,
    {
        RegistryState {
            selected_path: "/".to_owned(),
            path_parts: Vec::new(),
            values: Vec::new(),
            selected_value: None,
            last_entries: None,
            pending_clear: false,
            tree: Vec::new(),
            values_shown: 0,
        }
    }

    /// The subkeys and values of a key arrived: they become the listing to
    /// draw and the key becomes the selected one; the selected value is
    /// forgotten when the key was already the selected one.
    pub fn on_entries(&mut self, path: String, subkeys: Vec<String>, values: Vec<RegistryValueInfo>)
        ensures
            final(self).selected_path@ == path@,
            final(self).values@ == values@,
            normalize_key_path(path@) == normalize_key_path(old(self).selected_path@) ==> final(self).selected_value is None,
            normalize_key_path(path@) != normalize_key_path(old(self).selected_path@) ==> final(self).selected_value == old(self).selected_value,
            final(self).last_entries matches Some(e) && e.0@ == path@ && strings_view(e.1@) == strings_view(subkeys@),
            !final(self).pending_clear,
            final(self).tree == old(self).tree,
            final(self).path_parts == old(self).path_parts,
    {
        let a = normalize_path(path.as_str());
        let b = normalize_path(self.selected_path.as_str());
        if str_eq(a.as_str(), b.as_str()) {
            self.selected_value = None;
        }
        self.values = values;
        self.selected_path = path.clone();
        self.last_entries = Some((path, subkeys));
        self.pending_clear = false;
    }

    /// Starts over at the root: everything is forgotten and the tree is to
    /// be cleared; gives the key path to request (`/`).
    pub fn reset(&mut self) -> (res: String)
        ensures
            res@ == "/"@,
            final(self).selected_path@ == "/"@,
            final(self).path_parts@.len() == 0,
            final(self).values@.len() == 0,
            final(self).selected_value is None,
            final(self).last_entries is None,
            final(self).pending_clear,
            final(self).tree == old(self).tree,
    {
        self.selected_path = "/".to_owned();
        self.path_parts = Vec::new();
        self.values = Vec::new();
        self.selected_value = None;
        self.last_entries = None;
        self.pending_clear = true;
        "/".to_owned()
    }

    /// A key was selected in the tree: it becomes the selected key and its
    /// path is split into components; gives the key path to request.
    pub fn key_selected(&mut self, path: &str) -> (res: String)
        ensures
            res@ == path@,
            final(self).selected_path@ == path@,
            strings_view(final(self).path_parts@) == crate::paths::path_parts(path@),
            final(self).values == old(self).values,
            final(self).selected_value == old(self).selected_value,
            final(self).tree == old(self).tree,
    {
        self.selected_path = path.to_owned();
        self.path_parts = split_path(path);
        path.to_owned()
    }

    /// A value was selected (or the selection cleared).
    pub fn value_selected(&mut self, name: Option<String>)
        ensures
            opt_text(final(self).selected_value) == opt_text(name),
            final(self).selected_path == old(self).selected_path,
            final(self).tree == old(self).tree,
    {
        self.selected_value = name;
    }

    /// Editing and deleting need a selected value.
    pub fn can_edit(&self) -> (res: bool)
        ensures
            res == (self.selected_value is Some),
    {
        self.selected_value.is_some()
    }

    /// Draws the pending listing: clears the tree first after a reset,
    /// applies the listed subkeys, shows the values when the listed key is
    /// the selected one, and reports what is shown.
    pub fn render(&mut self) -> (res: Option<Rendered>)
        ensures
            ({
                let cleared = if old(self).pending_clear { Seq::<NodeView>::empty() } else { nodes_view(old(self).tree@) };
                let shown_before = if old(self).pending_clear { 0 } else { old(self).values_shown };
                match old(self).last_entries {
                    None => res is None && nodes_view(final(self).tree@) == cleared && final(self).values_shown == shown_before,
                    Some(e) => {
                        let norm = normalize_key_path(e.0@);
                        let tree = apply_entries_spec(cleared, norm, strings_view(e.1@));
                        let shown = if normalize_key_path(old(self).selected_path@) == norm { old(self).values@.len() as int } else { shown_before as int };
                        &&& nodes_view(final(self).tree@) == tree
                        &&& final(self).values_shown == shown
                        &&& res matches Some(r)
                        &&& r.path@ == e.0@
                        &&& r.values_shown == shown as u32
                        &&& if norm == "/"@ {
                            r.subkeys_shown == count_at_depth(tree, 0, tree.len() as int, 0) as u32 && r.expanded
                        } else {
                            match resolve_node_spec(tree, norm) {
                                Some(i) => r.subkeys_shown == count_at_depth(tree, i + 1, subtree_end_from(tree, i, i + 1), tree[i].depth + 1) as u32
                                    && r.expanded == tree[i].loaded,
                                None => r.subkeys_shown == 0 && !r.expanded,
                            }
                        }
                    },
                }
            }),
    {
        if self.pending_clear {
            self.tree = Vec::new();
            self.values_shown = 0;
            assert(nodes_view(self.tree@) =~= Seq::<NodeView>::empty());
        }
        match &self.last_entries {
            None => None,
            Some((path, subkeys)) => {
                let norm = normalize_path(path.as_str());
                apply_entries(&mut self.tree, norm.as_str(), subkeys.as_slice());
                let sel = normalize_path(self.selected_path.as_str());
                if str_eq(sel.as_str(), norm.as_str()) {
                    self.values_shown = self.values.len();
                }
                let (subkeys_shown, expanded): (usize, bool) = if str_eq(norm.as_str(), "/") {
                    (count_depth(&self.tree, 0, self.tree.len(), 0), true)
                } else {
                    match resolve_node(&self.tree, norm.as_str()) {
                        Some(i) => {
                            let end = subtree_end(&self.tree, i);
                            if self.tree[i].depth < usize::MAX {
                                (count_depth(&self.tree, i + 1, end, self.tree[i].depth + 1), self.tree[i].loaded)
                            } else {
                                (0, self.tree[i].loaded)
                            }
                        },
                        None => (0, false),
                    }
                };
                Some(Rendered {
                    path: path.clone(),
                    subkeys_shown: subkeys_shown as u32,
                    values_shown: self.values_shown as u32,
                    expanded,
                })
            },
        }
    }
}

} // verus!
