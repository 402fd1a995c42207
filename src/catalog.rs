use vstd::prelude::*;
use vstd::multiset::Multiset;
use vstd::string::{StrSliceExecFns, StringExecFns};

verus! {

/// Where a theme comes from.
#[derive(Debug, Clone, Copy, PartialEq, Eq, Structural)]
pub enum Origin {
    /// Bundled with the program.
    Preset,
    /// A file in the user's theme directory.
    Custom,
}

/// A catalog entry: a theme name tagged with its origin.
#[derive(Debug, PartialEq, Eq)]
pub enum ThemeType {
    Preset(String),
    Custom(String),
}

impl View for ThemeType {
    type V = (Origin, Seq<char>);

    open spec fn view(&self) -> (Origin, Seq<char>) {
        match self {
            ThemeType::Preset(s) => (Origin::Preset, s@),
            ThemeType::Custom(s) => (Origin::Custom, s@),
        }
    }
}

impl ThemeType {
    /// The theme's name, whatever its origin.
    pub fn get_name(&self) -> (r: &str)
        ensures
            r@ == self@.1,
    {
        self.name().as_str()
    }

    fn name(&self) -> (r: &String)
        ensures
            r@ == self@.1,
    {
        match self {
            ThemeType::Preset(s) => s,
            ThemeType::Custom(s) => s,
        }
    }

    /// An identifier unique across both origins: the name followed by
    /// `-preset` or `-custom`.
    pub fn entry_id(&self) -> (r: String)
        ensures
            r@ == self@.1 + (if self@.0 == Origin::Preset { "-preset"@ } else { "-custom"@ }),
    {
        match self {
            ThemeType::Preset(s) => s.clone().concat("-preset"),
            ThemeType::Custom(s) => s.clone().concat("-custom"),
        }
    }

    /// The origin tag.
    pub fn origin(&self) -> (r: Origin)
        ensures
            r == self@.0,
    {
        match self {
            ThemeType::Preset(_) => Origin::Preset,
            ThemeType::Custom(_) => Origin::Custom,
        }
    }
}

/// Lexicographic order on character codes from position `i` on (for UTF-8
/// text this is the byte order that `str` compares by).
pub open spec fn lex_le_from(a: Seq<char>, b: Seq<char>, i: int) -> bool
    decreases a.len() - i,
{
    if i >= a.len() {
        true
    } else if i >= b.len() {
        false
    } else if a[i] != b[i] {
        (a[i] as u32) <= (b[i] as u32)
    } else {
        lex_le_from(a, b, i + 1)
    }
}

/// `a` sorts no later than `b` by name.
pub open spec fn name_le(a: Seq<char>, b: Seq<char>) -> bool {
    lex_le_from(a, b, 0)
}

/// The catalog order: by name; for equal names presets come first.
pub open spec fn entry_le(a: (Origin, Seq<char>), b: (Origin, Seq<char>)) -> bool {
    if a.1 == b.1 {
        a.0 == Origin::Preset || b.0 == Origin::Custom
    } else {
        name_le(a.1, b.1)
    }
}

/// Each entry sorts no later than the next.
pub open spec fn is_sorted(s: Seq<(Origin, Seq<char>)>) -> bool {
    forall|i: int| 0 <= i < s.len() - 1 ==> entry_le(#[trigger] s[i], s[i + 1])
}

/// The entries' views, in order.
pub open spec fn views(s: Seq<ThemeType>) -> Seq<(Origin, Seq<char>)> {
    s.map_values(|e: ThemeType| e@)
}

proof fn lemma_lex_total(a: Seq<char>, b: Seq<char>, i: int)
    requires
        0 <= i,
    ensures
        lex_le_from(a, b, i) || lex_le_from(b, a, i),
    decreases a.len() - i,
{
    if i < a.len() && i < b.len() && a[i] == b[i] {
        lemma_lex_total(a, b, i + 1);
    }
}

proof fn lemma_entry_total(a: (Origin, Seq<char>), b: (Origin, Seq<char>))
    ensures
        entry_le(a, b) || entry_le(b, a),
{
    lemma_lex_total(a.1, b.1, 0);
}

/// Whether `a` sorts no later than `b` by name.
pub fn names_le(a: &str, b: &str) -> (r: bool)
    ensures
        r == name_le(a@, b@),
{
    let la = a.unicode_len();
    let lb = b.unicode_len();
    let mut i: usize = 0;
    while i < la && i < lb
        invariant
            i <= la,
            i <= lb,
            la == a@.len(),
            lb == b@.len(),
            lex_le_from(a@, b@, 0) == lex_le_from(a@, b@, i as int),
        decreases la - i,
    {
        let ca = a.get_char(i);
        let cb = b.get_char(i);
        if ca != cb {
            return (ca as u32) <= (cb as u32);
        }
        i = i + 1;
    }
    i >= la
}

fn entries_le(a: &ThemeType, b: &ThemeType) -> (r: bool)
    ensures
        r == entry_le(a@, b@),
{
    if a.name().eq(b.name()) {
        match (a.origin(), b.origin()) {
            (Origin::Custom, Origin::Preset) => false,
            _ => true,
        }
    } else {
        names_le(a.get_name(), b.get_name())
    }
}

/// Sorts `items` into catalog order. Entries of equal name and origin are
/// equal, so the result is the one sorted arrangement of the items.
pub fn sort_entries(items: Vec<ThemeType>) -> (r: Vec<ThemeType>)
    ensures
        is_sorted(views(r@)),
        views(r@).to_multiset() == views(items@).to_multiset(),
{
    let mut out: Vec<ThemeType> = Vec::new();
    let mut rest = items;
    let ghost all = views(rest@);
    proof {
        assert(views(out@) =~= Seq::<(Origin, Seq<char>)>::empty());
        broadcast use vstd::seq_lib::group_to_multiset_ensures;
        assert(views(out@).to_multiset() =~= Multiset::empty());
    }
    while rest.len() > 0
        invariant
            is_sorted(views(out@)),
            views(out@).to_multiset().add(views(rest@).to_multiset()) == all.to_multiset(),
        decreases rest.len(),
    {
        let ghost rest_before = views(rest@);
        let ghost out_before = views(out@);
        let x = rest.remove(0);
        let mut p: usize = 0;
        while p < out.len() && entries_le(&out[p], &x)
            invariant
                p <= out.len(),
                views(out@) == out_before,
                forall|q: int| 0 <= q < p ==> entry_le(#[trigger] out_before[q], x@),
            decreases out.len() - p,
        {
            p = p + 1;
        }
        proof {
            if p < out.len() {
                lemma_entry_total(out_before[p as int], x@);
            }
        }
        out.insert(p, x);
        proof {
            let nv = views(out@);
            assert(nv =~= out_before.insert(p as int, x@));
            assert(nv.remove(p as int) =~= out_before);
            broadcast use vstd::seq_lib::group_to_multiset_ensures;
            assert(nv.to_multiset() =~= out_before.to_multiset().insert(x@));
            assert(rest_before.remove(0) =~= views(rest@));
            assert(views(rest@).to_multiset() =~= rest_before.to_multiset().remove(rest_before[0]));
            assert forall|i: int| 0 <= i < nv.len() - 1 implies entry_le(#[trigger] nv[i], nv[i + 1]) by {
                if i + 1 < p {
                    assert(nv[i] == out_before[i] && nv[i + 1] == out_before[i + 1]);
                } else if i + 1 == p {
                    assert(nv[i] == out_before[i]);
                } else if i == p {
                } else {
                    assert(nv[i] == out_before[i - 1] && nv[i + 1] == out_before[i]);
                }
            }
        }
    }
    proof {
        assert(views(rest@) =~= Seq::<(Origin, Seq<char>)>::empty());
        broadcast use vstd::seq_lib::group_to_multiset_ensures;
    }
    out
}

/// Position of the last `.` among the first `n` characters, or -1.
pub open spec fn last_dot(s: Seq<char>, n: int) -> int
    decreases n,
{
    if n <= 0 {
        -1
    } else if s[n - 1] == '.' {
        n - 1
    } else {
        last_dot(s, n - 1)
    }
}

/// The file name without its extension: the part before the last `.`, or the
/// whole name when it has no `.` but a leading one.
pub open spec fn stem_of(s: Seq<char>) -> Seq<char> {
    let p = last_dot(s, s.len() as int);
    if p <= 0 {
        s
    } else {
        s.subrange(0, p)
    }
}

/// The extension: what follows the last `.`, unless that `.` leads the name.
pub open spec fn extension_of(s: Seq<char>) -> Option<Seq<char>> {
    let p = last_dot(s, s.len() as int);
    if p <= 0 {
        None
    } else {
        Some(s.subrange(p + 1, s.len() as int))
    }
}

/// The catalog entry for a bundled preset file: its stem.
pub open spec fn preset_entry_of(file: Seq<char>) -> Option<(Origin, Seq<char>)> {
    if file.len() == 0 {
        None
    } else {
        Some((Origin::Preset, stem_of(file)))
    }
}

/// The catalog entry for a file of the user's theme directory: its stem, for
/// a `.yaml` or `.yml` file only.
pub open spec fn custom_entry_of(file: Seq<char>) -> Option<(Origin, Seq<char>)> {
    if extension_of(file) == Some("yaml"@) || extension_of(file) == Some("yml"@) {
        Some((Origin::Custom, stem_of(file)))
    } else {
        None
    }
}

/// The entries that files contribute, counted with repetition.
pub open spec fn entries_of(files: Seq<Seq<char>>, origin: Origin) -> Multiset<(Origin, Seq<char>)>
    decreases files.len(),
{
    if files.len() == 0 {
        Multiset::empty()
    } else {
        let rest = entries_of(files.drop_last(), origin);
        let e = if origin == Origin::Preset {
            preset_entry_of(files.last())
        } else {
            custom_entry_of(files.last())
        };
        match e {
            Some(x) => rest.insert(x),
            None => rest,
        }
    }
}

/// The file names' views, in order.
pub open spec fn names_of(files: Seq<String>) -> Seq<Seq<char>> {
    files.map_values(|f: String| f@)
}

fn find_last_dot(s: &str) -> (r: Option<usize>)
    ensures
        match r {
            Some(p) => p as int == last_dot(s@, s@.len() as int) && p < s@.len(),
            None => last_dot(s@, s@.len() as int) == -1,
        },
{
    let len = s.unicode_len();
    let mut n: usize = len;
    while n > 0
        invariant
            n <= len,
            len == s@.len(),
            last_dot(s@, len as int) == last_dot(s@, n as int),
        decreases n,
    {
        if s.get_char(n - 1) == '.' {
            return Some(n - 1);
        }
        n = n - 1;
    }
    None
}

/// The stem and extension of a file name.
pub fn split_file_name(file: &str) -> (r: (String, Option<String>))
    ensures
        r.0@ == stem_of(file@),
        match r.1 {
            Some(e) => extension_of(file@) == Some(e@),
            None => extension_of(file@) is None,
        },
{
    match find_last_dot(file) {
        Some(p) => {
            if p == 0 {
                (file.to_string(), None)
            } else {
                let len = file.unicode_len();
                let stem = file.substring_char(0, p).to_string();
                let ext = file.substring_char(p + 1, len).to_string();
                (stem, Some(ext))
            }
        },
        None => (file.to_string(), None),
    }
}

/// The catalog entry of a bundled preset file, named after its stem.
pub fn preset_entry(file: &str) -> (r: Option<ThemeType>)
    ensures
        match r {
            Some(e) => preset_entry_of(file@) == Some(e@),
            None => preset_entry_of(file@) is None,
        },
{
    if file.unicode_len() == 0 {
        return None;
    }
    let (stem, _) = split_file_name(file);
    Some(ThemeType::Preset(stem))
}

/// The catalog entry of a file in the user's theme directory: a `.yaml` or
/// `.yml` file gives its stem, any other file nothing.
pub fn custom_entry(file: &str) -> (r: Option<ThemeType>)
    ensures
        match r {
            Some(e) => custom_entry_of(file@) == Some(e@),
            None => custom_entry_of(file@) is None,
        },
{
    let (stem, ext) = split_file_name(file);
    match ext {
        Some(e) => {
            let yaml = "yaml".to_string();
            let yml = "yml".to_string();
            if e.eq(&yaml) || e.eq(&yml) {
                Some(ThemeType::Custom(stem))
            } else {
                None
            }
        },
        None => None,
    }
}

fn collect_entries(files: &Vec<String>, origin: Origin, out: &mut Vec<ThemeType>)
    ensures
        views(final(out)@).to_multiset() == views(old(out)@).to_multiset().add(
            entries_of(names_of(files@), origin),
        ),
{
    let ghost start = views(out@);
    let mut i: usize = 0;
    while i < files.len()
        invariant
            i <= files@.len(),
            views(out@).to_multiset() == start.to_multiset().add(
                entries_of(names_of(files@).subrange(0, i as int), origin),
            ),
        decreases files.len() - i,
    {
        let ghost before = views(out@);
        let e = match origin {
            Origin::Preset => preset_entry(files[i].as_str()),
            Origin::Custom => custom_entry(files[i].as_str()),
        };
        proof {
            let names = names_of(files@);
            assert(names.subrange(0, i + 1).drop_last() =~= names.subrange(0, i as int));
            assert(names.subrange(0, i + 1).last() == files@[i as int]@);
        }
        match e {
            Some(x) => {
                out.push(x);
                proof {
                    broadcast use vstd::seq_lib::group_to_multiset_ensures;
                    assert(views(out@) =~= before.push(x@));
                }
            },
            None => {},
        }
        i = i + 1;
    }
    proof {
        assert(names_of(files@).subrange(0, files@.len() as int) =~= names_of(files@));
    }
}

/// `r` lists the entries of the preset files and of the user's files, each
/// as often as it occurs, in catalog order.
pub open spec fn is_catalog(r: Seq<(Origin, Seq<char>)>, presets: Seq<Seq<char>>, customs: Seq<Seq<char>>) -> bool {
    &&& is_sorted(r)
    &&& r.to_multiset() == entries_of(presets, Origin::Preset).add(entries_of(customs, Origin::Custom))
}

/// The catalog: one entry per bundled preset file and one per `.yaml` or
/// `.yml` file of the user's theme directory, in catalog order.
/// `custom_files` is empty when that directory does not exist.
pub fn all_theme_names(preset_files: &Vec<String>, custom_files: &Vec<String>) -> (r: Vec<ThemeType>)
    ensures
        is_catalog(views(r@), names_of(preset_files@), names_of(custom_files@)),
{
    let mut entries: Vec<ThemeType> = Vec::new();
    proof {
        assert(views(entries@) =~= Seq::<(Origin, Seq<char>)>::empty());
        broadcast use vstd::seq_lib::group_to_multiset_ensures;
        assert(views(entries@).to_multiset() =~= Multiset::empty());
    }
    collect_entries(preset_files, Origin::Preset, &mut entries);
    collect_entries(custom_files, Origin::Custom, &mut entries);
    proof {
        assert(Multiset::<(Origin, Seq<char>)>::empty().add(entries_of(names_of(preset_files@), Origin::Preset))
            =~= entries_of(names_of(preset_files@), Origin::Preset));
    }
    sort_entries(entries)
}

proof fn lemma_lex_antisym(a: Seq<char>, b: Seq<char>, i: int)
    requires
        0 <= i <= a.len(),
        i <= b.len(),
        lex_le_from(a, b, i),
        lex_le_from(b, a, i),
    ensures
        a.len() == b.len(),
        forall|j: int| i <= j < a.len() ==> a[j] == b[j],
    decreases a.len() - i,
{
    if i < a.len() && i < b.len() {
        vstd::utf8::char_u32_cast(a[i], a[i] as u32);
        vstd::utf8::char_u32_cast(b[i], b[i] as u32);
        lemma_lex_antisym(a, b, i + 1);
    }
}

proof fn lemma_lex_trans(a: Seq<char>, b: Seq<char>, c: Seq<char>, i: int)
    requires
        0 <= i,
        lex_le_from(a, b, i),
        lex_le_from(b, c, i),
    ensures
        lex_le_from(a, c, i),
    decreases a.len() - i,
{
    if i < a.len() && i < b.len() && i < c.len() {
        if a[i] == b[i] && b[i] == c[i] {
            lemma_lex_trans(a, b, c, i + 1);
        } else {
            vstd::utf8::char_u32_cast(a[i], a[i] as u32);
            vstd::utf8::char_u32_cast(b[i], b[i] as u32);
            vstd::utf8::char_u32_cast(c[i], c[i] as u32);
        }
    }
}

proof fn lemma_name_antisym(a: Seq<char>, b: Seq<char>)
    requires
        name_le(a, b),
        name_le(b, a),
    ensures
        a == b,
{
    lemma_lex_antisym(a, b, 0);
    assert(a =~= b);
}

proof fn lemma_entry_antisym(a: (Origin, Seq<char>), b: (Origin, Seq<char>))
    requires
        entry_le(a, b),
        entry_le(b, a),
    ensures
        a == b,
{
    if a.1 != b.1 {
        lemma_name_antisym(a.1, b.1);
    }
}

proof fn lemma_entry_trans(a: (Origin, Seq<char>), b: (Origin, Seq<char>), c: (Origin, Seq<char>))
    requires
        entry_le(a, b),
        entry_le(b, c),
    ensures
        entry_le(a, c),
{
    if a.1 != b.1 && b.1 != c.1 {
        lemma_lex_trans(a.1, b.1, c.1, 0);
        if a.1 == c.1 {
            lemma_name_antisym(a.1, b.1);
        }
    }
}

proof fn lemma_sorted_all_pairs(s: Seq<(Origin, Seq<char>)>, i: int, j: int)
    requires
        is_sorted(s),
        0 <= i <= j < s.len(),
    ensures
        entry_le(s[i], s[j]),
    decreases j - i,
{
    if i == j {
    } else {
        lemma_sorted_all_pairs(s, i, j - 1);
        assert(entry_le(s[j - 1], s[j]));
        lemma_entry_trans(s[i], s[j - 1], s[j]);
    }
}

/// Two arrangements in catalog order of the same entries are equal.
pub proof fn lemma_sorted_unique(a: Seq<(Origin, Seq<char>)>, b: Seq<(Origin, Seq<char>)>)
    requires
        is_sorted(a),
        is_sorted(b),
        a.to_multiset() == b.to_multiset(),
    ensures
        a == b,
    decreases a.len(),
{
    broadcast use vstd::seq_lib::group_to_multiset_ensures;
    assert(a.len() == b.to_multiset().len());
    if a.len() > 0 {
        assert(a.to_multiset().count(a[0]) > 0) by {
            assert(a.contains(a[0]));
        }
        assert(b.contains(a[0]));
        let k = choose|k: int| 0 <= k < b.len() && b[k] == a[0];
        assert(b.to_multiset().count(b[0]) > 0) by {
            assert(b.contains(b[0]));
        }
        assert(a.contains(b[0]));
        let m = choose|m: int| 0 <= m < a.len() && a[m] == b[0];
        lemma_sorted_all_pairs(a, 0, m);
        lemma_sorted_all_pairs(b, 0, k);
        lemma_entry_antisym(a[0], b[0]);
        let ra = a.drop_first();
        let rb = b.drop_first();
        assert(ra =~= a.remove(0));
        assert(rb =~= b.remove(0));
        assert(is_sorted(ra)) by {
            assert forall|i: int| 0 <= i < ra.len() - 1 implies entry_le(#[trigger] ra[i], ra[i + 1]) by {
                assert(ra[i] == a[i + 1] && ra[i + 1] == a[i + 2]);
            }
        }
        assert(is_sorted(rb)) by {
            assert forall|i: int| 0 <= i < rb.len() - 1 implies entry_le(#[trigger] rb[i], rb[i + 1]) by {
                assert(rb[i] == b[i + 1] && rb[i + 1] == b[i + 2]);
            }
        }
        lemma_sorted_unique(ra, rb);
        assert(a =~= seq![a[0]] + ra);
        assert(b =~= seq![b[0]] + rb);
    } else {
        assert(a =~= b);
    }
}

/// Listing is idempotent: every result that `all_theme_names` may give for
/// the same preset files and user files is the same sequence, and it is in
/// catalog order.
pub proof fn lemma_catalog_deterministic(
    r1: Seq<(Origin, Seq<char>)>,
    r2: Seq<(Origin, Seq<char>)>,
    presets: Seq<Seq<char>>,
    customs: Seq<Seq<char>>,
)
    requires
        is_catalog(r1, presets, customs),
        is_catalog(r2, presets, customs),
    ensures
        r1 == r2,
        is_sorted(r1),
{
    lemma_sorted_unique(r1, r2);
}

} // verus!
