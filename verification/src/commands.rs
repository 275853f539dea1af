//! Command dispatch and the decision logic of each command: which action the
//! arguments select, what `configure` builds, what `reset` does to the store,
//! and what `configure list` reports.

use vstd::prelude::*;
use vstd::string::StrSliceExecFns;
use vstd::string::StringExecFns;
use crate::config::Config;
use crate::config::Entry;
use crate::config::EntryV;
use crate::config::SectionV;
use crate::config::Section;
use crate::config::has_name;
use crate::config::valid_name;
use crate::config::valid_value;
use crate::config::wf_sections;
use crate::format::parse_config;
use crate::format::parse_text;
use crate::format::render_config;
use crate::format::render_sections;
use crate::format::sections_view;
use crate::text::str_eq;

verus! {

/// What a run of the tool has been asked to do.
#[derive(Clone, Copy, PartialEq, Eq, Structural, Debug)]
pub enum Action {
    /// Print the usage text.
    Help,
    /// Prompt for every provider's settings and overwrite the store.
    Configure,
    /// Print the store, or guidance if there is none.
    ConfigureList,
    /// Ask for confirmation and delete the store.
    Reset,
    /// Anything else: print the unknown-command message.
    Unknown,
}

/// The views of a vector of argument strings.
pub open spec fn strings_view(v: Seq<String>) -> Seq<Seq<char>> {
    v.map_values(|s: String| s@)
}

/// Which action an argument list selects. The first argument is the program
/// name; running with no further argument asks for the usage text.
pub open spec fn spec_dispatch(args: Seq<Seq<char>>) -> Action {
    if args.len() <= 1 {
        Action::Help
    } else if args[1] == "help"@ {
        Action::Help
    } else if args[1] == "configure"@ {
        if args.len() > 2 && args[2] == "list"@ {
            Action::ConfigureList
        } else {
            Action::Configure
        }
    } else if args[1] == "reset"@ {
        Action::Reset
    } else {
        Action::Unknown
    }
}

/// Select the action for the process arguments, program name included.
pub fn dispatch(args: &Vec<String>) -> (a: Action)
    ensures
        a == spec_dispatch(strings_view(args@)),
{
    if args.len() <= 1 {
        return Action::Help;
    }
    let first = args[1].as_str();
    if str_eq(first, "help") {
        Action::Help
    } else if str_eq(first, "configure") {
        if args.len() > 2 && str_eq(args[2].as_str(), "list") {
            Action::ConfigureList
        } else {
            Action::Configure
        }
    } else if str_eq(first, "reset") {
        Action::Reset
    } else {
        Action::Unknown
    }
}

/// Running with no arguments asks for the very same action as running with
/// `help`, so the two runs print the same usage text.
pub proof fn lemma_no_arguments_means_help(prog: Seq<char>)
    ensures
        spec_dispatch(seq![prog]) == Action::Help,
        spec_dispatch(seq![prog, "help"@]) == Action::Help,
        spec_dispatch(seq![prog]) == spec_dispatch(seq![prog, "help"@]),
{
}

/// The fixed list of providers `configure` walks, in order. Extending the
/// tool to more providers means extending this list alone.
pub fn providers() -> (out: Vec<String>)
    ensures
        strings_view(out@) == seq!["AWS"@, "Google"@],
{
    let mut out: Vec<String> = Vec::new();
    out.push(String::from_str("AWS"));
    out.push(String::from_str("Google"));
    proof {
        assert(strings_view(out@) =~~= seq!["AWS"@, "Google"@]);
    }
    out
}

/// One provider's prompted settings: its name and the three answers, each
/// possibly empty, meaning skipped.
#[derive(Debug, Clone, PartialEq, Eq)]
pub struct ProviderAnswers {
    pub provider: String,
    pub profile: String,
    pub upload: String,
    pub download: String,
}

/// The mathematical image of one provider's answers.
#[verifier::ext_equal]
pub struct AnswersV {
    pub provider: Seq<char>,
    pub profile: Seq<char>,
    pub upload: Seq<char>,
    pub download: Seq<char>,
}

impl View for ProviderAnswers {
    type V = AnswersV;

    open spec fn view(&self) -> AnswersV {
        AnswersV {
            provider: self.provider@,
            profile: self.profile@,
            upload: self.upload@,
            download: self.download@,
        }
    }
}

/// The views of a vector of answers.
pub open spec fn answers_view(v: Seq<ProviderAnswers>) -> Seq<AnswersV> {
    v.map_values(|a: ProviderAnswers| a@)
}

/// The entries one provider's answers produce: one per answered prompt, in
/// the fixed order profile, upload, download; skipped answers are omitted.
pub open spec fn entries_for(a: AnswersV) -> Seq<EntryV> {
    (if a.profile.len() > 0 {
        seq![(EntryV { key: "profile"@, value: a.profile })]
    } else {
        Seq::<EntryV>::empty()
    }) + (if a.upload.len() > 0 {
        seq![(EntryV { key: "upload"@, value: a.upload })]
    } else {
        Seq::<EntryV>::empty()
    }) + (if a.download.len() > 0 {
        seq![(EntryV { key: "download"@, value: a.download })]
    } else {
        Seq::<EntryV>::empty()
    })
}

/// The configuration `configure` builds from the prompted answers: one
/// section per provider that answered at least one prompt, in order; a
/// provider that skipped everything gets no section at all.
pub open spec fn spec_build(ans: Seq<AnswersV>) -> Seq<SectionV>
    decreases ans.len(),
{
    if ans.len() == 0 {
        Seq::<SectionV>::empty()
    } else {
        let es = entries_for(ans[0]);
        let rest = spec_build(ans.drop_first());
        if es.len() > 0 {
            seq![(SectionV { name: ans[0].provider, entries: es })] + rest
        } else {
            rest
        }
    }
}

proof fn lemma_spec_build_push(ans: Seq<AnswersV>, a: AnswersV)
    ensures
        spec_build(ans.push(a)) == spec_build(ans) + (if entries_for(a).len() > 0 {
            seq![(SectionV { name: a.provider, entries: entries_for(a) })]
        } else {
            Seq::<SectionV>::empty()
        }),
    decreases ans.len(),
{
    let p = ans.push(a);
    let tail = if entries_for(a).len() > 0 {
        seq![(SectionV { name: a.provider, entries: entries_for(a) })]
    } else {
        Seq::<SectionV>::empty()
    };
    if ans.len() == 0 {
        assert(p.len() == 1);
        assert(p[0] == a);
        assert(p.drop_first() =~= Seq::<AnswersV>::empty());
        assert(spec_build(p.drop_first()) == Seq::<SectionV>::empty());
        assert(spec_build(p) =~= spec_build(ans) + tail);
    } else {
        assert(p.len() == ans.len() + 1);
        assert(p[0] == ans[0]);
        assert(p.drop_first() =~= ans.drop_first().push(a));
        lemma_spec_build_push(ans.drop_first(), a);
        assert(spec_build(p) =~= spec_build(ans) + tail);
    }
}

/// Build one provider's entries, skipping every blank answer.
fn entries_of(a: &ProviderAnswers) -> (es: Vec<Entry>)
    ensures
        es@.map_values(|e: Entry| e@) == entries_for(a@),
{
    let mut es: Vec<Entry> = Vec::new();
    if !a.profile.as_str().is_empty() {
        es.push(Entry { key: String::from_str("profile"), value: a.profile.clone() });
    }
    if !a.upload.as_str().is_empty() {
        es.push(Entry { key: String::from_str("upload"), value: a.upload.clone() });
    }
    if !a.download.as_str().is_empty() {
        es.push(Entry { key: String::from_str("download"), value: a.download.clone() });
    }
    proof {
        assert(es@.map_values(|e: Entry| e@) =~= entries_for(a@));
    }
    es
}

/// Build the configuration that `configure` will write, from the answers for
/// every provider in order.
pub fn build_config(answers: &Vec<ProviderAnswers>) -> (c: Config)
    ensures
        c@ == spec_build(answers_view(answers@)),
{
    let n = answers.len();
    let mut sections: Vec<Section> = Vec::new();
    proof {
        assert(answers_view(answers@).take(0) =~= Seq::<AnswersV>::empty());
        assert(sections_view(sections@) =~= Seq::<SectionV>::empty());
    }
    let mut i: usize = 0;
    while i < n
        invariant
            0 <= i <= n,
            n == answers.len(),
            sections_view(sections@) == spec_build(answers_view(answers@).take(i as int)),
        decreases n - i,
    {
        let a = &answers[i];
        let es = entries_of(a);
        let ghost sv0 = sections_view(sections@);
        if es.len() > 0 {
            let name = a.provider.clone();
            let sec = Section { name, entries: es };
            proof {
                assert(sec@ == (SectionV { name: a@.provider, entries: entries_for(a@) }));
            }
            let ghost secv = sec@;
            sections.push(sec);
            proof {
                assert(sections_view(sections@) =~= sv0.push(secv));
            }
        } else {
            proof {
                assert(entries_for(a@).len() == 0);
            }
        }
        proof {
            let av = answers_view(answers@);
            lemma_spec_build_push(av.take(i as int), av[i as int]);
            assert(av.take(i + 1) =~= av.take(i as int).push(av[i as int]));
            assert(av[i as int] == a@);
            assert(sections_view(sections@) =~= spec_build(av.take(i + 1)));
        }
        i = i + 1;
    }
    proof {
        assert(answers_view(answers@).take(n as int) =~= answers_view(answers@));
    }
    Config { sections }
}

/// An answer whose value can live in the store: it fits on one line and
/// carries no whitespace at its ends, which is what prompting guarantees.
pub open spec fn clean_answers(a: AnswersV) -> bool {
    &&& valid_name(a.provider)
    &&& valid_value(a.profile)
    &&& valid_value(a.upload)
    &&& valid_value(a.download)
}

/// No provider named `n`, no section named `n`: building introduces no
/// section name beyond the providers it was given.
proof fn lemma_build_no_name(ans: Seq<AnswersV>, n: Seq<char>)
    requires
        forall|i: int| 0 <= i < ans.len() ==> (#[trigger] ans[i]).provider != n,
    ensures
        !has_name(spec_build(ans), n),
    decreases ans.len(),
{
    if ans.len() > 0 {
        let tail = ans.drop_first();
        assert forall|i: int| 0 <= i < tail.len() implies (#[trigger] tail[i]).provider != n by {
            assert(tail[i] == ans[i + 1]);
        }
        lemma_build_no_name(tail, n);
        let rest = spec_build(tail);
        let es = entries_for(ans[0]);
        if es.len() > 0 {
            let sec = SectionV { name: ans[0].provider, entries: es };
            let built = seq![sec] + rest;
            assert(spec_build(ans) == built);
            if has_name(built, n) {
                let w = choose|i: int| 0 <= i < built.len() && (#[trigger] built[i]).name == n;
                if w == 0 {
                    assert(built[0] == sec);
                } else {
                    assert(built[w] == rest[w - 1]);
                    assert(has_name(rest, n));
                }
                assert(false);
            }
        }
    }
}

/// What `configure` builds from clean answers for distinct providers is
/// well formed, so by the round trip it survives the store unchanged.
pub proof fn lemma_build_wf(ans: Seq<AnswersV>)
    requires
        forall|i: int| 0 <= i < ans.len() ==> clean_answers(#[trigger] ans[i]),
        forall|i: int, j: int|
            #![trigger ans[i], ans[j]]
            0 <= i < j < ans.len() ==> ans[i].provider != ans[j].provider,
    ensures
        wf_sections(spec_build(ans)),
    decreases ans.len(),
{
    reveal_strlit("profile");
    reveal_strlit("upload");
    reveal_strlit("download");
    assert("profile"@ =~= seq!['p', 'r', 'o', 'f', 'i', 'l', 'e']);
    assert("upload"@ =~= seq!['u', 'p', 'l', 'o', 'a', 'd']);
    assert("download"@ =~= seq!['d', 'o', 'w', 'n', 'l', 'o', 'a', 'd']);
    if ans.len() > 0 {
        let tail = ans.drop_first();
        let es = entries_for(ans[0]);
        assert(clean_answers(ans[0]));
        assert(forall|i: int| 0 <= i < es.len() ==> (#[trigger] es[i]).wf());
        assert("profile"@ != "upload"@ && "profile"@ != "download"@ && "upload"@ != "download"@);
        assert(forall|i: int, j: int|
            #![trigger es[i], es[j]]
            0 <= i < j < es.len() ==> es[i].key != es[j].key);
        assert forall|i: int| 0 <= i < tail.len() implies clean_answers(#[trigger] tail[i]) by {
            assert(tail[i] == ans[i + 1]);
        }
        assert forall|i: int, j: int|
            #![trigger tail[i], tail[j]]
            0 <= i < j < tail.len() implies tail[i].provider != tail[j].provider by {
            assert(tail[i] == ans[i + 1]);
            assert(tail[j] == ans[j + 1]);
        }
        lemma_build_wf(tail);
        let rb = spec_build(tail);
        let built = spec_build(ans);
        if es.len() > 0 {
            let sec = SectionV { name: ans[0].provider, entries: es };
            assert(sec.wf());
            assert(built == seq![sec] + rb);
            assert(forall|i: int|
                0 <= i < built.len() ==> (#[trigger] built[i]) == if i == 0 {
                    sec
                } else {
                    rb[i - 1]
                });
            assert forall|k: int|
                0 <= k < tail.len() implies (#[trigger] tail[k]).provider != ans[0].provider by {
                assert(tail[k] == ans[k + 1]);
            }
            lemma_build_no_name(tail, ans[0].provider);
            assert(forall|k: int|
                0 <= k < rb.len() ==> (#[trigger] rb[k]).name != ans[0].provider);
            assert forall|i: int, j: int|
                #![trigger built[i], built[j]]
                0 <= i < j < built.len() implies built[i].name != built[j].name by {
                if i == 0 {
                    assert(built[j] == rb[j - 1]);
                    assert(rb[j - 1].name != ans[0].provider);
                } else {
                    assert(built[i] == rb[i - 1] && built[j] == rb[j - 1]);
                }
            }
        }
    }
}

/// Whether an answer to the deletion prompt counts as a yes: `y` or `yes`,
/// in any mix of upper and lower case.
pub open spec fn spec_affirmative(s: Seq<char>) -> bool {
    ||| (s.len() == 1 && (s[0] == 'y' || s[0] == 'Y'))
    ||| (s.len() == 3 && (s[0] == 'y' || s[0] == 'Y') && (s[1] == 'e' || s[1] == 'E') && (s[2]
        == 's' || s[2] == 'S'))
}

/// Decide whether a trimmed answer confirms the deletion.
pub fn is_affirmative(s: &str) -> (r: bool)
    ensures
        r == spec_affirmative(s@),
{
    let n = s.unicode_len();
    if n == 1 {
        let c = s.get_char(0);
        c == 'y' || c == 'Y'
    } else if n == 3 {
        let c0 = s.get_char(0);
        let c1 = s.get_char(1);
        let c2 = s.get_char(2);
        (c0 == 'y' || c0 == 'Y') && (c1 == 'e' || c1 == 'E') && (c2 == 's' || c2 == 'S')
    } else {
        false
    }
}

/// What `reset` decides to do.
#[derive(Clone, Copy, PartialEq, Eq, Structural, Debug)]
pub enum ResetAction {
    /// The store exists and the answer confirmed: delete the file.
    Delete,
    /// The store exists and the answer declined: leave the file untouched.
    Keep,
    /// There is no store: print guidance, delete nothing.
    Missing,
}

pub open spec fn spec_reset_decision(exists: bool, ans: Seq<char>) -> ResetAction {
    if !exists {
        ResetAction::Missing
    } else if spec_affirmative(ans) {
        ResetAction::Delete
    } else {
        ResetAction::Keep
    }
}

/// Decide the `reset` command: `exists` says whether the store file is
/// there, `answer` is the trimmed reply to the confirmation prompt.
pub fn reset_decision(exists: bool, answer: &str) -> (a: ResetAction)
    ensures
        a == spec_reset_decision(exists, answer@),
{
    if !exists {
        ResetAction::Missing
    } else if is_affirmative(answer) {
        ResetAction::Delete
    } else {
        ResetAction::Keep
    }
}

/// The store as a whole: the text of the file, or `None` when no file
/// exists.
pub open spec fn spec_configure_step(store: Option<Seq<char>>, ss: Seq<SectionV>) -> Option<
    Seq<char>,
> {
    Option::Some(render_sections(ss))
}

pub open spec fn spec_reset_step(store: Option<Seq<char>>, ans: Seq<char>) -> Option<Seq<char>> {
    match store {
        Option::None => Option::None,
        Option::Some(c) => if spec_affirmative(ans) {
            Option::None
        } else {
            Option::Some(c)
        },
    }
}

/// `reset` deletes the store exactly when it exists and the answer is a yes;
/// a declined prompt leaves the file byte for byte as it was, and without a
/// file nothing is deleted.
pub proof fn lemma_reset_honors_answer(store: Option<Seq<char>>, ans: Seq<char>)
    ensures
        store is Some && !spec_affirmative(ans) ==> spec_reset_step(store, ans) == store,
        store is Some && spec_affirmative(ans) ==> spec_reset_step(store, ans) is None,
        store is None ==> spec_reset_step(store, ans) is None && spec_reset_decision(false, ans)
            == ResetAction::Missing,
{
}

/// The answers the confirmation accepts, spelled out.
pub proof fn lemma_affirmative_words()
    ensures
        spec_affirmative("y"@),
        spec_affirmative("Y"@),
        spec_affirmative("yes"@),
        spec_affirmative("YES"@),
        spec_affirmative("Yes"@),
        !spec_affirmative("n"@),
        !spec_affirmative("no"@),
        !spec_affirmative(""@),
{
    reveal_strlit("y");
    reveal_strlit("Y");
    reveal_strlit("yes");
    reveal_strlit("YES");
    reveal_strlit("Yes");
    reveal_strlit("n");
    reveal_strlit("no");
    reveal_strlit("");
}

/// `configure` replaces the store outright: the result never depends on what
/// was stored before, and a second run erases the first entirely.
pub proof fn lemma_configure_overwrites(
    store1: Option<Seq<char>>,
    store2: Option<Seq<char>>,
    first: Seq<SectionV>,
    second: Seq<SectionV>,
)
    ensures
        spec_configure_step(store1, second) == spec_configure_step(store2, second),
        spec_configure_step(spec_configure_step(store1, first), second) == spec_configure_step(
            store1,
            second,
        ),
{
}

/// What `configure list` prints.
#[derive(PartialEq, Eq, Debug)]
pub enum ListOutcome {
    /// The store parsed: the listing text, section by section.
    Listing(String),
    /// There is no store yet: print the guidance message instead.
    MissingStore,
    /// The store exists but cannot be read: fatal.
    Malformed,
}

/// The `configure list` command on the store's content, if any: the listing
/// re-renders exactly what the store text parses to.
pub fn list_report(content: Option<&str>) -> (r: ListOutcome)
    ensures
        match r {
            ListOutcome::Listing(text) => content is Some && match parse_text(
                content->Some_0@,
            ) {
                Option::Some(ss) => text@ == render_sections(ss),
                Option::None => false,
            },
            ListOutcome::MissingStore => content is None,
            ListOutcome::Malformed => content is Some && parse_text(content->Some_0@) is None,
        },
{
    match content {
        Option::None => ListOutcome::MissingStore,
        Option::Some(text) => match parse_config(text) {
            Option::None => ListOutcome::Malformed,
            Option::Some(c) => ListOutcome::Listing(render_config(&c)),
        },
    }
}

} // verus!
