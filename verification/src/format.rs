//! The textual format of the store: `[section]` headers followed by
//! `key = value` lines. Rendering and parsing are specified over character
//! sequences and implemented as verified functions.

use vstd::prelude::*;
use vstd::string::StrSliceExecFns;
use vstd::string::StringExecFns;
use crate::config::Config;
use crate::config::Entry;
use crate::config::EntryV;
use crate::config::Section;
use crate::config::SectionV;
use crate::config::entries_view;
use crate::config::has_key;
use crate::config::has_name;
use crate::text::lemma_split_lines_step;
use crate::text::lemma_split_lines_whole;
use crate::text::spec_trim;
use crate::text::split_lines;
use crate::text::str_eq;
use crate::text::trimmed;

verus! {

/// The text of one entry: `key = value` and a line break.
pub open spec fn render_entry(e: EntryV) -> Seq<char> {
    e.key + seq![' ', '=', ' '] + e.value + seq!['\n']
}

pub open spec fn render_entries(es: Seq<EntryV>) -> Seq<char>
    decreases es.len(),
{
    if es.len() == 0 {
        Seq::empty()
    } else {
        render_entry(es[0]) + render_entries(es.drop_first())
    }
}

/// The text of one section: its bracketed header line, then its entries.
pub open spec fn render_section(s: SectionV) -> Seq<char> {
    seq!['['] + s.name + seq![']', '\n'] + render_entries(s.entries)
}

/// The whole text of the store for a given configuration.
pub open spec fn render_sections(ss: Seq<SectionV>) -> Seq<char>
    decreases ss.len(),
{
    if ss.len() == 0 {
        Seq::empty()
    } else {
        render_section(ss[0]) + render_sections(ss.drop_first())
    }
}

pub proof fn lemma_render_entries_push(es: Seq<EntryV>, e: EntryV)
    ensures
        render_entries(es.push(e)) == render_entries(es) + render_entry(e),
    decreases es.len(),
{
    let p = es.push(e);
    if es.len() == 0 {
        assert(p.len() == 1);
        assert(p[0] == e);
        assert(p.drop_first() =~= Seq::<EntryV>::empty());
        assert(render_entries(p) == render_entry(p[0]) + render_entries(p.drop_first()));
        assert(render_entries(p.drop_first()) == Seq::<char>::empty());
        assert(render_entries(es) == Seq::<char>::empty());
        assert(render_entries(p) =~= render_entries(es) + render_entry(e));
    } else {
        assert(p.len() == es.len() + 1);
        assert(p[0] == es[0]);
        assert(p.drop_first() =~= es.drop_first().push(e));
        lemma_render_entries_push(es.drop_first(), e);
        assert(render_entries(p) == render_entry(p[0]) + render_entries(p.drop_first()));
        assert(render_entries(es) == render_entry(es[0]) + render_entries(es.drop_first()));
        assert(render_entries(p) =~= render_entries(es) + render_entry(e));
    }
}

pub proof fn lemma_render_sections_push(ss: Seq<SectionV>, s: SectionV)
    ensures
        render_sections(ss.push(s)) == render_sections(ss) + render_section(s),
    decreases ss.len(),
{
    let p = ss.push(s);
    if ss.len() == 0 {
        assert(p.len() == 1);
        assert(p[0] == s);
        assert(p.drop_first() =~= Seq::<SectionV>::empty());
        assert(render_sections(p) == render_section(p[0]) + render_sections(p.drop_first()));
        assert(render_sections(p.drop_first()) == Seq::<char>::empty());
        assert(render_sections(ss) == Seq::<char>::empty());
        assert(render_sections(p) =~= render_sections(ss) + render_section(s));
    } else {
        assert(p.len() == ss.len() + 1);
        assert(p[0] == ss[0]);
        assert(p.drop_first() =~= ss.drop_first().push(s));
        lemma_render_sections_push(ss.drop_first(), s);
        assert(render_sections(p) == render_section(p[0]) + render_sections(p.drop_first()));
        assert(render_sections(ss) == render_section(ss[0]) + render_sections(ss.drop_first()));
        assert(render_sections(p) =~= render_sections(ss) + render_section(s));
    }
}

/// Write a configuration out as text. The same text serves as the store file
/// and as the listing that `configure list` prints.
pub fn render_config(c: &Config) -> (out: String)
    ensures
        out@ == render_sections(c@),
{
    proof {
        reveal_strlit("[");
        reveal_strlit("]\n");
        reveal_strlit(" = ");
        reveal_strlit("\n");
    }
    let mut out = String::new();
    let n = c.sections.len();
    proof {
        assert(c@.take(0) =~= Seq::<SectionV>::empty());
    }
    let mut i: usize = 0;
    while i < n
        invariant
            0 <= i <= n,
            n == c.sections.len(),
            c@.len() == n,
            c@ == c.sections@.map_values(|s: Section| s@),
            out@ == render_sections(c@.take(i as int)),
        decreases n - i,
    {
        let sec = &c.sections[i];
        out.append("[");
        out.append(sec.name.as_str());
        out.append("]\n");
        proof {
            reveal_strlit("[");
            reveal_strlit("]\n");
            assert("["@ =~= seq!['[']);
            assert("]\n"@ =~= seq![']', '\n']);
            assert(sec@.entries.take(0) =~= Seq::<EntryV>::empty());
            assert(out@ =~= render_sections(c@.take(i as int)) + seq!['['] + sec.name@ + seq![
                ']',
                '\n',
            ] + render_entries(sec@.entries.take(0)));
        }
        let m = sec.entries.len();
        let mut j: usize = 0;
        while j < m
            invariant
                0 <= j <= m,
                m == sec.entries.len(),
                sec@.entries.len() == m,
                sec@ == sec.view(),
                out@ == render_sections(c@.take(i as int)) + seq!['['] + sec.name@ + seq![
                    ']',
                    '\n',
                ] + render_entries(sec@.entries.take(j as int)),
            decreases m - j,
        {
            let e = &sec.entries[j];
            out.append(e.key.as_str());
            out.append(" = ");
            out.append(e.value.as_str());
            out.append("\n");
            proof {
                reveal_strlit(" = ");
                reveal_strlit("\n");
                assert(" = "@ =~= seq![' ', '=', ' ']);
                assert("\n"@ =~= seq!['\n']);
                assert(sec@.entries[j as int] == e@);
                lemma_render_entries_push(sec@.entries.take(j as int), e@);
                assert(sec@.entries.take(j + 1) =~= sec@.entries.take(j as int).push(e@));
                assert(out@ =~= render_sections(c@.take(i as int)) + seq!['['] + sec.name@ + seq![
                    ']',
                    '\n',
                ] + render_entries(sec@.entries.take(j + 1)));
            }
            j = j + 1;
        }
        proof {
            assert(sec@.entries.take(m as int) =~= sec@.entries);
            lemma_render_sections_push(c@.take(i as int), c@[i as int]);
            assert(c@[i as int] == sec@);
            assert(c@.take(i + 1) =~= c@.take(i as int).push(sec@));
            assert(out@ =~= render_sections(c@.take(i as int)) + render_section(sec@));
        }
        i = i + 1;
    }
    proof {
        assert(c@.take(n as int) =~= c@);
    }
    out
}

/// What one line of the store means.
pub enum LineV {
    /// An empty line, skipped.
    Blank,
    /// A `[name]` header opening a section.
    Header(Seq<char>),
    /// A `key = value` entry for the currently open section.
    Pair(EntryV),
    /// Anything else: the store is malformed.
    Bad,
}

/// Classify one line (already free of `'\n'`), as the parser reads it.
pub open spec fn classify_line(line: Seq<char>) -> LineV {
    if line.len() == 0 {
        LineV::Blank
    } else if line[0] == '[' {
        if line.len() >= 2 && line[line.len() - 1] == ']' {
            LineV::Header(line.subrange(1, line.len() - 1))
        } else {
            LineV::Bad
        }
    } else {
        match line.index_of_first('=') {
            Option::Some(i) => {
                let k = spec_trim(line.take(i));
                let v = spec_trim(line.skip(i + 1));
                if k.len() > 0 {
                    LineV::Pair(EntryV { key: k, value: v })
                } else {
                    LineV::Bad
                }
            },
            Option::None => LineV::Bad,
        }
    }
}

/// Append the section still being read, if any, to the finished ones.
pub open spec fn close_section(done: Seq<SectionV>, cur: Option<SectionV>) -> Seq<SectionV> {
    match cur {
        Option::Some(s) => done.push(s),
        Option::None => done,
    }
}

/// Read the lines of the store in order. `done` holds the finished sections,
/// `cur` the one whose header was read last. `None` means the store is
/// malformed: an unreadable line, an entry before any section header, a
/// second binding for a key its section already has, or a repeated section
/// name — the store is a mapping, and a mapping binds each name once.
pub open spec fn parse_lines(
    lines: Seq<Seq<char>>,
    done: Seq<SectionV>,
    cur: Option<SectionV>,
) -> Option<Seq<SectionV>>
    decreases lines.len(),
{
    if lines.len() == 0 {
        Option::Some(close_section(done, cur))
    } else {
        match classify_line(lines[0]) {
            LineV::Blank => parse_lines(lines.drop_first(), done, cur),
            LineV::Header(name) => if has_name(close_section(done, cur), name) {
                Option::None
            } else {
                parse_lines(
                    lines.drop_first(),
                    close_section(done, cur),
                    Option::Some(SectionV { name, entries: Seq::empty() }),
                )
            },
            LineV::Pair(e) => match cur {
                Option::Some(s) => if has_key(s.entries, e.key) {
                    Option::None
                } else {
                    parse_lines(
                        lines.drop_first(),
                        done,
                        Option::Some(SectionV { name: s.name, entries: s.entries.push(e) }),
                    )
                },
                Option::None => Option::None,
            },
            LineV::Bad => Option::None,
        }
    }
}

/// What a text means as a store: its sections, or `None` if it is malformed.
pub open spec fn parse_text(s: Seq<char>) -> Option<Seq<SectionV>> {
    parse_lines(split_lines(s), Seq::empty(), Option::None)
}

/// The first occurrence of `c` in `s` is at `i` exactly when `c` stands at
/// `i` and nowhere earlier.
pub proof fn lemma_first_at(s: Seq<char>, c: char, i: int)
    requires
        0 <= i < s.len(),
        s[i] == c,
        forall|j: int| 0 <= j < i ==> s[j] != c,
    ensures
        s.index_of_first(c) == Option::Some(i),
{
    s.index_of_first_ensures(c);
    assert(s.contains(c));
}

/// The views of a vector of sections.
pub open spec fn sections_view(v: Seq<Section>) -> Seq<SectionV> {
    v.map_values(|s: Section| s@)
}

/// The view of a partially read section.
pub open spec fn opt_section_view(c: Option<Section>) -> Option<SectionV> {
    match c {
        Option::Some(s) => Option::Some(s@),
        Option::None => Option::None,
    }
}

/// Find the first `=` of a line, as the parser splits an entry.
fn find_eq(line: &str) -> (r: Option<usize>)
    ensures
        match r {
            Option::Some(i) => line@.index_of_first('=') == Option::Some(i as int),
            Option::None => line@.index_of_first('=') is None,
        },
{
    let n = line.unicode_len();
    let mut i: usize = 0;
    while i < n
        invariant
            0 <= i <= n,
            n == line@.len(),
            forall|j: int| 0 <= j < i ==> line@[j] != '=',
        decreases n - i,
    {
        if line.get_char(i) == '=' {
            proof {
                lemma_first_at(line@, '=', i as int);
            }
            return Option::Some(i);
        }
        i = i + 1;
    }
    proof {
        line@.index_of_first_ensures('=');
        if line@.index_of_first('=') is Some {
            let w = line@.index_of_first('=')->Some_0;
            assert(line@[w] != '=');
        }
    }
    Option::None
}

/// Whether the entries read so far already bind the key `k`.
fn entries_have_key(es: &Vec<Entry>, k: &str) -> (r: bool)
    ensures
        r == has_key(entries_view(es@), k@),
{
    let n = es.len();
    let mut i: usize = 0;
    while i < n
        invariant
            0 <= i <= n,
            n == es.len(),
            forall|j: int| 0 <= j < i ==> (#[trigger] entries_view(es@)[j]).key != k@,
        decreases n - i,
    {
        if str_eq(es[i].key.as_str(), k) {
            proof {
                assert(entries_view(es@)[i as int].key == k@);
            }
            return true;
        }
        i = i + 1;
    }
    proof {
        assert(entries_view(es@).len() == n);
    }
    false
}

/// Whether a section named `name` was already read, among the finished
/// sections or as the one still open.
fn have_section_named(done: &Vec<Section>, cur: &Option<Section>, name: &str) -> (r: bool)
    ensures
        r == has_name(close_section(sections_view(done@), opt_section_view(*cur)), name@),
{
    let ghost closed = close_section(sections_view(done@), opt_section_view(*cur));
    let n = done.len();
    let mut i: usize = 0;
    while i < n
        invariant
            0 <= i <= n,
            n == done.len(),
            closed == close_section(sections_view(done@), opt_section_view(*cur)),
            forall|j: int| 0 <= j < i ==> (#[trigger] sections_view(done@)[j]).name != name@,
        decreases n - i,
    {
        if str_eq(done[i].name.as_str(), name) {
            proof {
                assert(sections_view(done@)[i as int].name == name@);
                match cur {
                    Option::Some(sec) => assert(closed == sections_view(done@).push(sec@)),
                    Option::None => assert(closed == sections_view(done@)),
                }
                assert(closed[i as int].name == name@);
            }
            return true;
        }
        i = i + 1;
    }
    match cur {
        Option::Some(sec) => {
            let r = str_eq(sec.name.as_str(), name);
            proof {
                assert(closed == sections_view(done@).push(sec@));
                if r {
                    assert(closed[n as int] == sec@);
                } else {
                    assert forall|j: int| 0 <= j < closed.len() implies (#[trigger] closed[j]).name
                        != name@ by {
                        if j < n as int {
                            assert(closed[j] == sections_view(done@)[j]);
                        } else {
                            assert(closed[j] == sec@);
                        }
                    }
                }
            }
            r
        },
        Option::None => {
            proof {
                assert(closed == sections_view(done@));
            }
            false
        },
    }
}

/// Read a store text back into a configuration; `None` means it is
/// malformed — an unreadable line, an entry before any header, a duplicate
/// key or a repeated section name — which the caller treats as fatal.
pub fn parse_config(s: &str) -> (r: Option<Config>)
    ensures
        match r {
            Option::Some(c) => parse_text(s@) == Option::Some(c@),
            Option::None => parse_text(s@) is None,
        },
{
    let n = s.unicode_len();
    let mut done: Vec<Section> = Vec::new();
    let mut cur: Option<Section> = Option::None;
    let mut pos: usize = 0;
    proof {
        assert(s@.skip(0) =~= s@);
        assert(sections_view(done@) =~= Seq::<SectionV>::empty());
    }
    while pos < n
        invariant
            0 <= pos <= n,
            n == s@.len(),
            parse_text(s@) == parse_lines(
                split_lines(s@.skip(pos as int)),
                sections_view(done@),
                opt_section_view(cur),
            ),
        decreases n - pos,
    {
        let ghost dv0 = sections_view(done@);
        let ghost cv0 = opt_section_view(cur);
        let ghost lines0 = split_lines(s@.skip(pos as int));
        let mut j: usize = pos;
        while j < n && s.get_char(j) != '\n'
            invariant
                pos <= j <= n,
                n == s@.len(),
                forall|t: int| pos <= t < j ==> s@[t] != '\n',
            decreases n - j,
        {
            j = j + 1;
        }
        let line = s.substring_char(pos, j);
        let next_pos = if j < n {
            j + 1
        } else {
            n
        };
        // After this line, the parser continues on the lines of the text from
        // `next_pos` on; a final unterminated line leaves exactly one empty
        // line behind, which the parser skips.
        let ghost lines1 = split_lines(s@.skip(next_pos as int));
        proof {
            assert(line@ =~= s@.subrange(pos as int, j as int));
            if j < n {
                assert(line@ + seq!['\n'] + s@.skip(j + 1) =~= s@.skip(pos as int));
                lemma_split_lines_step(line@, s@.skip(j + 1));
                assert(lines0 =~~= seq![line@] + lines1);
                assert(lines0.len() > 0 && lines0[0] == line@);
                assert(lines0.drop_first() =~~= lines1);
            } else {
                lemma_split_lines_whole(s@.skip(pos as int));
                assert(line@ =~= s@.skip(pos as int));
                assert(lines0 =~~= seq![line@]);
                assert(s@.skip(n as int) =~= Seq::<char>::empty());
                assert(lines1 =~~= seq![Seq::<char>::empty()]);
                // the leftover empty line parses as a blank line
                assert(classify_line(Seq::<char>::empty()) is Blank);
                assert(lines1.drop_first() =~~= Seq::<Seq<char>>::empty());
                assert(lines0.drop_first() =~~= Seq::<Seq<char>>::empty());
                assert(forall|d: Seq<SectionV>, c: Option<SectionV>|
                    parse_lines(lines1, d, c) == #[trigger] parse_lines(lines0.drop_first(), d, c));
            }
        }
        let ln = line.unicode_len();
        if ln == 0 {
            proof {
                assert(classify_line(line@) is Blank);
                assert(parse_lines(lines0, dv0, cv0) == parse_lines(lines0.drop_first(), dv0, cv0));
            }
        } else if line.get_char(0) == '[' {
            if ln >= 2 && line.get_char(ln - 1) == ']' {
                let name = line.substring_char(1, ln - 1);
                proof {
                    assert(name@ =~= line@.subrange(1, ln - 1));
                    assert(classify_line(line@) == LineV::Header(name@));
                }
                if have_section_named(&done, &cur, name) {
                    proof {
                        assert(has_name(close_section(dv0, cv0), name@));
                        assert(parse_lines(lines0, dv0, cv0) is None);
                    }
                    return Option::None;
                }
                proof {
                    assert(!has_name(close_section(dv0, cv0), name@));
                }
                let prev = cur;
                let entries: Vec<Entry> = Vec::new();
                let fresh = Section { name: String::from_str(name), entries };
                proof {
                    assert(fresh@.entries =~= Seq::<EntryV>::empty());
                    assert(fresh@ == SectionV { name: name@, entries: Seq::empty() });
                }
                match prev {
                    Option::Some(sec) => {
                        let ghost secv = sec@;
                        done.push(sec);
                        proof {
                            assert(sections_view(done@) =~= dv0.push(secv));
                        }
                    },
                    Option::None => {},
                }
                cur = Option::Some(fresh);
                proof {
                    assert(sections_view(done@) == close_section(dv0, cv0));
                    assert(parse_lines(lines0, dv0, cv0) == parse_lines(
                        lines0.drop_first(),
                        sections_view(done@),
                        opt_section_view(cur),
                    ));
                }
            } else {
                proof {
                    assert(classify_line(line@) is Bad);
                    assert(parse_lines(lines0, dv0, cv0) is None);
                }
                return Option::None;
            }
        } else {
            match find_eq(line) {
                Option::None => {
                    proof {
                        assert(classify_line(line@) is Bad);
                        assert(parse_lines(lines0, dv0, cv0) is None);
                    }
                    return Option::None;
                },
                Option::Some(i) => {
                    proof {
                        line@.index_of_first_ensures('=');
                    }
                    let kpart = line.substring_char(0, i);
                    let vpart = line.substring_char(i + 1, ln);
                    let k = trimmed(kpart);
                    let v = trimmed(vpart);
                    proof {
                        assert(kpart@ =~= line@.take(i as int));
                        assert(vpart@ =~= line@.skip(i + 1));
                    }
                    if k.unicode_len() == 0 {
                        proof {
                            assert(classify_line(line@) is Bad);
                            assert(parse_lines(lines0, dv0, cv0) is None);
                        }
                        return Option::None;
                    }
                    proof {
                        assert(classify_line(line@) == LineV::Pair(EntryV { key: k@, value: v@ }));
                    }
                    match cur {
                        Option::None => {
                            proof {
                                assert(parse_lines(lines0, dv0, cv0) is None);
                            }
                            return Option::None;
                        },
                        Option::Some(sec) => {
                            if entries_have_key(&sec.entries, k.as_str()) {
                                proof {
                                    assert(has_key(sec@.entries, k@));
                                    assert(parse_lines(lines0, dv0, cv0) is None);
                                }
                                return Option::None;
                            }
                            proof {
                                assert(!has_key(sec@.entries, k@));
                            }
                            let mut sec = sec;
                            let ghost sec0 = sec@;
                            sec.entries.push(Entry { key: k, value: v });
                            proof {
                                assert(sec@.entries =~= sec0.entries.push(
                                    EntryV { key: k@, value: v@ },
                                ));
                                assert(sec@.name == sec0.name);
                            }
                            cur = Option::Some(sec);
                            proof {
                                assert(opt_section_view(cur) == Option::Some(
                                    SectionV {
                                        name: sec0.name,
                                        entries: sec0.entries.push(EntryV { key: k@, value: v@ }),
                                    },
                                ));
                                assert(parse_lines(lines0, dv0, cv0) == parse_lines(
                                    lines0.drop_first(),
                                    sections_view(done@),
                                    opt_section_view(cur),
                                ));
                            }
                        },
                    }
                },
            }
        }
        pos = next_pos;
        proof {
            assert(parse_lines(lines0, dv0, cv0) == parse_lines(
                split_lines(s@.skip(pos as int)),
                sections_view(done@),
                opt_section_view(cur),
            ));
        }
    }
    proof {
        let dv = sections_view(done@);
        let cv = opt_section_view(cur);
        let le = seq![Seq::<char>::empty()];
        assert(s@.skip(n as int) =~= Seq::<char>::empty());
        assert(split_lines(Seq::<char>::empty()) =~~= le);
        assert(le[0] == Seq::<char>::empty());
        assert(classify_line(Seq::<char>::empty()) is Blank);
        assert(le.drop_first() =~~= Seq::<Seq<char>>::empty());
        assert(parse_lines(Seq::<Seq<char>>::empty(), dv, cv) == Option::Some(
            close_section(dv, cv),
        ));
        assert(parse_lines(le, dv, cv) == parse_lines(le.drop_first(), dv, cv));
        assert(parse_text(s@) == Option::Some(close_section(dv, cv)));
    }
    let ghost dv_end = sections_view(done@);
    let ghost cv_end = opt_section_view(cur);
    let sections = match cur {
        Option::Some(sec) => {
            let ghost secv = sec@;
            let mut d = done;
            d.push(sec);
            proof {
                assert(sections_view(d@) =~= dv_end.push(secv));
            }
            d
        },
        Option::None => done,
    };
    let out = Config { sections };
    proof {
        assert(out@ =~= sections_view(out.sections@));
        assert(out@ == close_section(dv_end, cv_end));
    }
    Option::Some(out)
}

} // verus!
