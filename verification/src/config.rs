//! The in-memory configuration model: a list of named sections, each holding
//! `key = value` entries, together with the validity predicates that the
//! textual format needs.

use vstd::prelude::*;

verus! {

/// One `key = value` pair inside a section.
#[derive(Debug, Clone, PartialEq, Eq)]
pub struct Entry {
    pub key: String,
    pub value: String,
}

/// The mathematical image of an entry: key and value as character sequences.
#[verifier::ext_equal]
pub struct EntryV {
    pub key: Seq<char>,
    pub value: Seq<char>,
}

impl View for Entry {
    type V = EntryV;

    open spec fn view(&self) -> EntryV {
        EntryV { key: self.key@, value: self.value@ }
    }
}

/// A named group of entries, one per provider.
#[derive(Debug, Clone, PartialEq, Eq)]
pub struct Section {
    pub name: String,
    pub entries: Vec<Entry>,
}

/// The mathematical image of a section.
#[verifier::ext_equal]
pub struct SectionV {
    pub name: Seq<char>,
    pub entries: Seq<EntryV>,
}

/// The views of a vector of entries.
pub open spec fn entries_view(v: Seq<Entry>) -> Seq<EntryV> {
    v.map_values(|e: Entry| e@)
}

impl View for Section {
    type V = SectionV;

    open spec fn view(&self) -> SectionV {
        SectionV { name: self.name@, entries: entries_view(self.entries@) }
    }
}

/// A whole configuration: the sections in the order they are written out.
#[derive(Debug, Clone, PartialEq, Eq)]
pub struct Config {
    pub sections: Vec<Section>,
}

impl View for Config {
    type V = Seq<SectionV>;

    open spec fn view(&self) -> Seq<SectionV> {
        self.sections@.map_values(|s: Section| s@)
    }
}

/// Whitespace that prompting and parsing strip from the ends of a line:
/// every character of Unicode's White_Space class, the set `str::trim`
/// removes.
pub open spec fn ws_char(c: char) -> bool {
    ||| c == ' '
    ||| ('\u{0009}' <= c && c <= '\u{000D}')
    ||| c == '\u{0085}'
    ||| c == '\u{00A0}'
    ||| c == '\u{1680}'
    ||| ('\u{2000}' <= c && c <= '\u{200A}')
    ||| c == '\u{2028}'
    ||| c == '\u{2029}'
    ||| c == '\u{202F}'
    ||| c == '\u{205F}'
    ||| c == '\u{3000}'
}

/// A section name that survives the textual format: it may not span lines.
pub open spec fn valid_name(n: Seq<char>) -> bool {
    forall|i: int| 0 <= i < n.len() ==> n[i] != '\n'
}

/// A key that survives the textual format: non-empty, on one line, free of
/// `=`, not mistakable for a section header, and already trimmed.
pub open spec fn valid_key(k: Seq<char>) -> bool {
    &&& k.len() > 0
    &&& forall|i: int| 0 <= i < k.len() ==> k[i] != '\n' && k[i] != '='
    &&& k[0] != '['
    &&& !ws_char(k[0])
    &&& !ws_char(k[k.len() - 1])
}

/// A value that survives the textual format: on one line and already trimmed.
pub open spec fn valid_value(v: Seq<char>) -> bool {
    &&& forall|i: int| 0 <= i < v.len() ==> v[i] != '\n'
    &&& v.len() > 0 ==> !ws_char(v[0]) && !ws_char(v[v.len() - 1])
}

impl EntryV {
    pub open spec fn wf(self) -> bool {
        valid_key(self.key) && valid_value(self.value)
    }
}

/// Whether some entry of `es` already carries the key `k`. A section maps
/// each key to one value, so the parser refuses a second binding.
pub open spec fn has_key(es: Seq<EntryV>, k: Seq<char>) -> bool {
    exists|i: int| 0 <= i < es.len() && (#[trigger] es[i]).key == k
}

/// Whether some section of `ss` already carries the name `n`. The store maps
/// each provider to one section, so the parser refuses a repeated header.
pub open spec fn has_name(ss: Seq<SectionV>, n: Seq<char>) -> bool {
    exists|i: int| 0 <= i < ss.len() && (#[trigger] ss[i]).name == n
}

/// Appending an entry binds exactly one more key.
pub proof fn lemma_has_key_push(es: Seq<EntryV>, e: EntryV, k: Seq<char>)
    ensures
        has_key(es.push(e), k) == (has_key(es, k) || e.key == k),
{
    let p = es.push(e);
    if has_key(p, k) {
        let w = choose|i: int| 0 <= i < p.len() && (#[trigger] p[i]).key == k;
        if w < es.len() {
            assert(es[w] == p[w]);
            assert(has_key(es, k));
        } else {
            assert(p[w] == e);
        }
    }
    if has_key(es, k) {
        let w = choose|i: int| 0 <= i < es.len() && (#[trigger] es[i]).key == k;
        assert(p[w] == es[w]);
        assert(has_key(p, k));
    }
    if e.key == k {
        assert(p[es.len() as int] == e);
        assert(has_key(p, k));
    }
}

/// Appending a section binds exactly one more name.
pub proof fn lemma_has_name_push(ss: Seq<SectionV>, s: SectionV, n: Seq<char>)
    ensures
        has_name(ss.push(s), n) == (has_name(ss, n) || s.name == n),
{
    let p = ss.push(s);
    if has_name(p, n) {
        let w = choose|i: int| 0 <= i < p.len() && (#[trigger] p[i]).name == n;
        if w < ss.len() {
            assert(ss[w] == p[w]);
            assert(has_name(ss, n));
        } else {
            assert(p[w] == s);
        }
    }
    if has_name(ss, n) {
        let w = choose|i: int| 0 <= i < ss.len() && (#[trigger] ss[i]).name == n;
        assert(p[w] == ss[w]);
        assert(has_name(p, n));
    }
    if s.name == n {
        assert(p[ss.len() as int] == s);
        assert(has_name(p, n));
    }
}

impl SectionV {
    pub open spec fn wf(self) -> bool {
        &&& valid_name(self.name)
        &&& forall|i: int| 0 <= i < self.entries.len() ==> #[trigger] self.entries[i].wf()
        &&& forall|i: int, j: int|
            #![trigger self.entries[i], self.entries[j]]
            0 <= i < j < self.entries.len() ==> self.entries[i].key != self.entries[j].key
    }
}

/// Well-formedness of a whole configuration: section names and the keys
/// within each section are distinct — the structure is a genuine mapping —
/// and every section can be written to the textual format and read back
/// unchanged.
pub open spec fn wf_sections(ss: Seq<SectionV>) -> bool {
    &&& forall|i: int| 0 <= i < ss.len() ==> #[trigger] ss[i].wf()
    &&& forall|i: int, j: int|
        #![trigger ss[i], ss[j]]
        0 <= i < j < ss.len() ==> ss[i].name != ss[j].name
}

} // verus!
