//! The store format round trip: a well-formed configuration, written out as
//! text, parses back to exactly the same sections, keys and values.

use vstd::prelude::*;
use crate::commands::AnswersV;
use crate::commands::clean_answers;
use crate::commands::lemma_build_wf;
use crate::commands::spec_build;
use crate::config::EntryV;
use crate::config::SectionV;
use crate::config::has_key;
use crate::config::has_name;
use crate::config::lemma_has_key_push;
use crate::config::lemma_has_name_push;
use crate::config::valid_name;
use crate::config::wf_sections;
use crate::format::LineV;
use crate::format::classify_line;
use crate::format::close_section;
use crate::format::lemma_first_at;
use crate::format::parse_lines;
use crate::format::parse_text;
use crate::format::render_entries;
use crate::format::render_entry;
use crate::format::render_section;
use crate::format::render_sections;
use crate::text::lemma_split_lines_step;
use crate::text::lemma_split_lines_whole;
use crate::text::lemma_trim_key_pad;
use crate::text::lemma_trim_value_pad;
use crate::text::split_lines;

verus! {

/// The body of an entry's line — everything but the terminating `'\n'` —
/// reads back as exactly that entry.
proof fn lemma_classify_entry_line(e: EntryV)
    requires
        e.wf(),
    ensures
        render_entry(e) == (e.key + seq![' ', '=', ' '] + e.value) + seq!['\n'],
        forall|i: int|
            0 <= i < (e.key + seq![' ', '=', ' '] + e.value).len() ==> (e.key + seq![
                ' ',
                '=',
                ' ',
            ] + e.value)[i] != '\n',
        classify_line(e.key + seq![' ', '=', ' '] + e.value) == LineV::Pair(e),
{
    let line = e.key + seq![' ', '=', ' '] + e.value;
    let kl = e.key.len() as int;
    assert(render_entry(e) =~= line + seq!['\n']);
    assert(forall|i: int| 0 <= i < line.len() ==> line[i] != '\n');
    assert(line[kl + 1] == '=');
    assert(forall|j: int| 0 <= j < kl + 1 ==> line[j] != '=');
    lemma_first_at(line, '=', kl + 1);
    assert(line.take(kl + 1) =~= e.key + seq![' ']);
    assert(line.skip(kl + 2) =~= seq![' '] + e.value);
    lemma_trim_key_pad(e.key);
    lemma_trim_value_pad(e.value);
    assert(line.len() > 0 && line[0] == e.key[0]);
    assert(line[0] != '[');
    assert(classify_line(line) == LineV::Pair(EntryV { key: e.key, value: e.value }));
    assert(EntryV { key: e.key, value: e.value } == e);
}

/// A section's header line — everything but the terminating `'\n'` — reads
/// back as a header carrying exactly the section's name.
proof fn lemma_classify_header_line(name: Seq<char>)
    requires
        valid_name(name),
    ensures
        forall|i: int|
            0 <= i < (seq!['['] + name + seq![']']).len() ==> (seq!['['] + name + seq![']'])[i]
                != '\n',
        classify_line(seq!['['] + name + seq![']']) == LineV::Header(name),
{
    let line = seq!['['] + name + seq![']'];
    assert(forall|i: int| 0 <= i < line.len() ==> line[i] != '\n');
    assert(line[0] == '[');
    assert(line.len() >= 2);
    assert(line[line.len() - 1] == ']');
    assert(line.subrange(1, line.len() - 1) =~= name);
}

/// Reading the rendered entries of the open section appends them, in order,
/// to that section, and leaves the rest of the text to read. The keys must
/// be fresh: the parser refuses a key its section already binds.
proof fn lemma_parse_rendered_entries(
    es: Seq<EntryV>,
    rest: Seq<char>,
    done: Seq<SectionV>,
    cur: SectionV,
)
    requires
        forall|i: int| 0 <= i < es.len() ==> (#[trigger] es[i]).wf(),
        forall|i: int, j: int|
            #![trigger es[i], es[j]]
            0 <= i < j < es.len() ==> es[i].key != es[j].key,
        forall|i: int| 0 <= i < es.len() ==> !has_key(cur.entries, (#[trigger] es[i]).key),
    ensures
        parse_lines(split_lines(render_entries(es) + rest), done, Option::Some(cur))
            == parse_lines(
            split_lines(rest),
            done,
            Option::Some(SectionV { name: cur.name, entries: cur.entries + es }),
        ),
    decreases es.len(),
{
    if es.len() == 0 {
        assert(render_entries(es) + rest =~= rest);
        assert(cur.entries + es =~= cur.entries);
        assert(SectionV { name: cur.name, entries: cur.entries + es } == cur);
    } else {
        let e = es[0];
        let tail = es.drop_first();
        let line = e.key + seq![' ', '=', ' '] + e.value;
        let rest2 = render_entries(tail) + rest;
        lemma_classify_entry_line(e);
        assert(render_entries(es) + rest =~= line + seq!['\n'] + rest2);
        lemma_split_lines_step(line, rest2);
        let lines0 = split_lines(render_entries(es) + rest);
        assert(lines0 =~~= seq![line] + split_lines(rest2));
        assert(lines0.len() > 0 && lines0[0] == line);
        assert(lines0.drop_first() =~~= split_lines(rest2));
        let cur1 = SectionV { name: cur.name, entries: cur.entries.push(e) };
        assert(!has_key(cur.entries, e.key));
        assert(parse_lines(lines0, done, Option::Some(cur)) == parse_lines(
            split_lines(rest2),
            done,
            Option::Some(cur1),
        ));
        assert forall|i: int| 0 <= i < tail.len() implies !has_key(
            cur1.entries,
            (#[trigger] tail[i]).key,
        ) by {
            assert(tail[i] == es[i + 1]);
            lemma_has_key_push(cur.entries, e, tail[i].key);
            assert(es[0].key != es[i + 1].key);
            assert(!has_key(cur.entries, es[i + 1].key));
        }
        lemma_parse_rendered_entries(tail, rest, done, cur1);
        assert(cur1.entries + tail =~= cur.entries + es);
        assert(SectionV { name: cur1.name, entries: cur1.entries + tail } == (SectionV {
            name: cur.name,
            entries: cur.entries + es,
        }));
    }
}

/// Reading the rendered sections closes whatever section was open and then
/// yields exactly those sections, in order. The names must be fresh: the
/// parser refuses a section name it has already read.
proof fn lemma_parse_rendered_sections(ss: Seq<SectionV>, done: Seq<SectionV>, cur: Option<
    SectionV,
>)
    requires
        wf_sections(ss),
        forall|i: int|
            0 <= i < ss.len() ==> !has_name(close_section(done, cur), (#[trigger] ss[i]).name),
    ensures
        parse_lines(split_lines(render_sections(ss)), done, cur) == Option::Some(
            close_section(done, cur) + ss,
        ),
    decreases ss.len(),
{
    if ss.len() == 0 {
        assert(render_sections(ss) == Seq::<char>::empty());
        let le = seq![Seq::<char>::empty()];
        lemma_split_lines_whole(Seq::<char>::empty());
        assert(split_lines(render_sections(ss)) =~~= le);
        assert(le[0] == Seq::<char>::empty());
        assert(classify_line(Seq::<char>::empty()) is Blank);
        assert(le.drop_first() =~~= Seq::<Seq<char>>::empty());
        assert(parse_lines(Seq::<Seq<char>>::empty(), done, cur) == Option::Some(
            close_section(done, cur),
        ));
        assert(parse_lines(le, done, cur) == parse_lines(le.drop_first(), done, cur));
        assert(close_section(done, cur) + ss =~= close_section(done, cur));
    } else {
        let sec = ss[0];
        let tail = ss.drop_first();
        assert(sec.wf());
        assert(wf_sections(tail)) by {
            assert(forall|i: int| 0 <= i < tail.len() ==> #[trigger] tail[i] == ss[i + 1]);
        }
        let hl = seq!['['] + sec.name + seq![']'];
        let rest2 = render_entries(sec.entries) + render_sections(tail);
        lemma_classify_header_line(sec.name);
        assert(render_sections(ss) =~= hl + seq!['\n'] + rest2);
        lemma_split_lines_step(hl, rest2);
        let lines0 = split_lines(render_sections(ss));
        assert(lines0 =~~= seq![hl] + split_lines(rest2));
        assert(lines0.len() > 0 && lines0[0] == hl);
        assert(lines0.drop_first() =~~= split_lines(rest2));
        let done1 = close_section(done, cur);
        let cur1 = SectionV { name: sec.name, entries: Seq::empty() };
        assert(!has_name(done1, sec.name));
        assert(parse_lines(lines0, done, cur) == parse_lines(
            split_lines(rest2),
            done1,
            Option::Some(cur1),
        ));
        assert(forall|i: int| 0 <= i < sec.entries.len() ==> (#[trigger] sec.entries[i]).wf());
        lemma_parse_rendered_entries(sec.entries, render_sections(tail), done1, cur1);
        assert(cur1.entries + sec.entries =~= sec.entries);
        assert(SectionV { name: cur1.name, entries: cur1.entries + sec.entries } == sec);
        assert forall|i: int| 0 <= i < tail.len() implies !has_name(
            close_section(done1, Option::Some(sec)),
            (#[trigger] tail[i]).name,
        ) by {
            assert(tail[i] == ss[i + 1]);
            lemma_has_name_push(done1, sec, tail[i].name);
            assert(ss[0].name != ss[i + 1].name);
            assert(!has_name(done1, ss[i + 1].name));
        }
        lemma_parse_rendered_sections(tail, done1, Option::Some(sec));
        assert(close_section(done1, Option::Some(sec)) + tail =~= close_section(done, cur) + ss);
    }
}

/// The round trip: writing a well-formed configuration and reading the text
/// back yields exactly the same sections, with the same keys and values in
/// the same order.
pub proof fn theorem_render_parse_round_trip(ss: Seq<SectionV>)
    requires
        wf_sections(ss),
    ensures
        parse_text(render_sections(ss)) == Option::Some(ss),
{
    assert(forall|i: int|
        0 <= i < ss.len() ==> !has_name(
            close_section(Seq::empty(), Option::None),
            (#[trigger] ss[i]).name,
        ));
    lemma_parse_rendered_sections(ss, Seq::empty(), Option::None);
    assert(close_section(Seq::empty(), Option::None) + ss =~= ss);
}

/// What `configure` stores from clean answers for distinct providers,
/// `configure list` reads back unchanged: building, writing and parsing
/// lose nothing.
pub proof fn theorem_configure_survives_the_store(ans: Seq<AnswersV>)
    requires
        forall|i: int| 0 <= i < ans.len() ==> clean_answers(#[trigger] ans[i]),
        forall|i: int, j: int|
            #![trigger ans[i], ans[j]]
            0 <= i < j < ans.len() ==> ans[i].provider != ans[j].provider,
    ensures
        parse_text(render_sections(spec_build(ans))) == Option::Some(spec_build(ans)),
{
    lemma_build_wf(ans);
    theorem_render_parse_round_trip(spec_build(ans));
}

} // verus!
