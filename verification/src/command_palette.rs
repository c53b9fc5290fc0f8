//! System-wide command palette: capability-gated command descriptors,
//! case-insensitive matching and relevance ranking, and execution of the
//! registered handlers.

use vstd::prelude::*;
use crate::text::{
    chars_of, contains_chars, contains_seq, owned, push_str, starts_with_chars, starts_with_seq,
    to_lowercase, unicode_lowercase, all_ascii, ascii_lower,
};

verus! {

/// The lowercase mapping of a text.
pub open spec fn lc(s: Seq<char>) -> Seq<char> {
    unicode_lowercase(s)
}

/// The characters of the lowercase mapping of `s`.
fn lower_chars(s: &str) -> (r: Vec<char>)
    ensures
        r@ == lc(s@),
        all_ascii(s@) ==> r@ == s@.map_values(|c: char| ascii_lower(c)),
{
    let l = to_lowercase(s);
    chars_of(l.as_str())
}

/// Whether two character vectors are equal.
fn chars_equal(a: &Vec<char>, b: &Vec<char>) -> (r: bool)
    ensures
        r == (a@ == b@),
{
    if a.len() != b.len() {
        return false;
    }
    let r = starts_with_chars(a, b);
    assert(a@.subrange(0, a@.len() as int) == a@);
    r
}

/// Unique identifier of a command.
#[derive(Debug, Clone, PartialEq, Eq, Hash)]
pub struct CommandId(String);

impl View for CommandId {
    type V = Seq<char>;

    closed spec fn view(&self) -> Seq<char> {
        self.0@
    }
}

impl CommandId {
    /// Creates a command id.
    pub fn new(id: &str) -> (r: Self)
        ensures
            r@ == id@,
    {
        CommandId(owned(id))
    }

    /// Returns the id as a string slice.
    pub fn as_str(&self) -> (r: &str)
        ensures
            r@ == self@,
    {
        self.0.as_str()
    }

    /// Whether two ids are the same.
    pub fn same_as(&self, other: &CommandId) -> (r: bool)
        ensures
            r == (self@ == other@),
    {
        self.0 == other.0
    }

    /// Copies the id.
    pub fn duplicate(&self) -> (r: Self)
        ensures
            r@ == self@,
    {
        CommandId(self.0.clone())
    }

    /// Human-readable rendering: the id itself.
    pub fn to_string(&self) -> (r: String)
        ensures
            r@ == self@,
    {
        self.0.clone()
    }
}

/// What a command descriptor holds, as character sequences.
pub struct DescriptorView {
    pub id: Seq<char>,
    pub name: Seq<char>,
    pub description: Seq<char>,
    pub tags: Seq<Seq<char>>,
    pub required_capability: Option<Seq<char>>,
    pub enabled: bool,
}

/// A string vector, element by element, as character sequences.
pub open spec fn strings_view(v: Seq<String>) -> Seq<Seq<char>> {
    v.map_values(|s: String| s@)
}

/// A command with its metadata.
#[derive(Debug, Clone, PartialEq, Eq)]
pub struct CommandDescriptor {
    /// Unique command identifier
    pub id: CommandId,
    /// Human-readable command name
    pub name: String,
    /// Description of what the command does
    pub description: String,
    /// Search tags/keywords
    pub tags: Vec<String>,
    /// Required capability id (optional)
    pub required_capability: Option<String>,
    /// Whether the command is enabled
    pub enabled: bool,
}

impl View for CommandDescriptor {
    type V = DescriptorView;

    open spec fn view(&self) -> DescriptorView {
        DescriptorView {
            id: self.id@,
            name: self.name@,
            description: self.description@,
            tags: strings_view(self.tags@),
            required_capability: match self.required_capability {
                Some(c) => Some(c@),
                None => None,
            },
            enabled: self.enabled,
        }
    }
}

/// Some tag, lowercased, contains the lowercase query.
pub open spec fn some_tag_contains(tags: Seq<Seq<char>>, lq: Seq<char>) -> bool {
    exists|i: int| 0 <= i < tags.len() && contains_seq(lc(#[trigger] tags[i]), lq)
}

/// A descriptor matches a query when it is enabled and its name,
/// description, one of its tags or its id contains the query, compared in
/// lowercase.
pub open spec fn descriptor_matches(d: DescriptorView, q: Seq<char>) -> bool {
    let lq = lc(q);
    d.enabled && (contains_seq(lc(d.name), lq) || contains_seq(lc(d.description), lq)
        || some_tag_contains(d.tags, lq) || contains_seq(lc(d.id), lq))
}

/// Score of the name: exact match 1000, prefix 500, substring 100.
pub open spec fn name_score(name: Seq<char>, lq: Seq<char>) -> nat {
    if lc(name) == lq {
        1000
    } else if starts_with_seq(lc(name), lq) {
        500
    } else if contains_seq(lc(name), lq) {
        100
    } else {
        0
    }
}

/// The most tags a command can have: with one more, the best relevance
/// score (1000 for the name, 300 for each tag, 10 for the description)
/// would not fit in a `u32`.
pub const MAX_TAGS: usize = 14_316_554;

/// Score of one tag: exact match 300, prefix 150, substring 50.
pub open spec fn tag_score(tag: Seq<char>, lq: Seq<char>) -> nat {
    if lc(tag) == lq {
        300
    } else if starts_with_seq(lc(tag), lq) {
        150
    } else if contains_seq(lc(tag), lq) {
        50
    } else {
        0
    }
}

/// Sum of the tag scores.
pub open spec fn tags_score(tags: Seq<Seq<char>>, lq: Seq<char>) -> nat
    decreases tags.len(),
{
    if tags.len() == 0 {
        0
    } else {
        tags_score(tags.drop_last(), lq) + tag_score(tags.last(), lq)
    }
}

/// Relevance of a descriptor for a query: zero when disabled, else the
/// name score, the tag scores and 10 when the description contains the
/// query.
pub open spec fn relevance(d: DescriptorView, q: Seq<char>) -> nat {
    let lq = lc(q);
    if !d.enabled {
        0
    } else {
        name_score(d.name, lq) + tags_score(d.tags, lq) + if contains_seq(lc(d.description), lq) {
            10nat
        } else {
            0nat
        }
    }
}

proof fn lemma_tags_score_bound(tags: Seq<Seq<char>>, lq: Seq<char>)
    ensures
        tags_score(tags, lq) <= 300 * tags.len(),
    decreases tags.len(),
{
    if tags.len() > 0 {
        lemma_tags_score_bound(tags.drop_last(), lq);
    }
}

/// Copies a vector of strings.
fn copy_strings(v: &Vec<String>) -> (r: Vec<String>)
    ensures
        strings_view(r@) == strings_view(v@),
{
    let mut out: Vec<String> = Vec::new();
    let mut i: usize = 0;
    while i < v.len()
        invariant
            i <= v.len(),
            strings_view(out@) == strings_view(v@).take(i as int),
        decreases v.len() - i,
    {
        out.push(v[i].clone());
        assert(strings_view(v@).take(i + 1) == strings_view(v@).take(i as int).push(v@[i as int]@));
        i = i + 1;
    }
    assert(strings_view(v@).take(v.len() as int) == strings_view(v@));
    out
}

impl CommandDescriptor {
    /// Creates an enabled descriptor without a capability requirement.
    pub fn new(id: &str, name: &str, description: &str, tags: Vec<String>) -> (r: Self)
        ensures
            r@ == (DescriptorView {
                id: id@,
                name: name@,
                description: description@,
                tags: strings_view(tags@),
                required_capability: None,
                enabled: true,
            }),
    {
        CommandDescriptor {
            id: CommandId::new(id),
            name: owned(name),
            description: owned(description),
            tags,
            required_capability: None,
            enabled: true,
        }
    }

    /// Sets the required capability.
    pub fn with_capability(self, cap_id: &str) -> (r: Self)
        ensures
            r@ == (DescriptorView { required_capability: Some(cap_id@), ..self@ }),
    {
        let mut d = self;
        d.required_capability = Some(owned(cap_id));
        d
    }

    /// Disables the command.
    pub fn disabled(self) -> (r: Self)
        ensures
            r@ == (DescriptorView { enabled: false, ..self@ }),
    {
        let mut d = self;
        d.enabled = false;
        d
    }

    /// Copies the descriptor.
    pub fn duplicate(&self) -> (r: Self)
        ensures
            r@ == self@,
    {
        CommandDescriptor {
            id: self.id.duplicate(),
            name: self.name.clone(),
            description: self.description.clone(),
            tags: copy_strings(&self.tags),
            required_capability: match &self.required_capability {
                Some(c) => Some(c.clone()),
                None => None,
            },
            enabled: self.enabled,
        }
    }

    /// Whether some tag, lowercased, contains `lq`.
    fn tag_contains(&self, lq: &Vec<char>) -> (r: bool)
        ensures
            r == some_tag_contains(strings_view(self.tags@), lq@),
    {
        let ghost tags = strings_view(self.tags@);
        let mut i: usize = 0;
        while i < self.tags.len()
            invariant
                i <= self.tags@.len(),
                tags == strings_view(self.tags@),
                forall|k: int| 0 <= k < i ==> !contains_seq(lc(#[trigger] tags[k]), lq@),
            decreases self.tags.len() - i,
        {
            let t = lower_chars(self.tags[i].as_str());
            if contains_chars(&t, lq) {
                assert(contains_seq(lc(tags[i as int]), lq@));
                return true;
            }
            i = i + 1;
        }
        false
    }

    /// Whether the command matches the query: enabled, and the name,
    /// description, a tag or the id contains the query, in lowercase.
    pub fn matches(&self, query: &str) -> (r: bool)
        ensures
            r == descriptor_matches(self@, query@),
    {
        if !self.enabled {
            return false;
        }
        let lq = lower_chars(query);
        let name = lower_chars(self.name.as_str());
        if contains_chars(&name, &lq) {
            return true;
        }
        let description = lower_chars(self.description.as_str());
        if contains_chars(&description, &lq) {
            return true;
        }
        if self.tag_contains(&lq) {
            return true;
        }
        let id = lower_chars(self.id.as_str());
        contains_chars(&id, &lq)
    }

    /// The relevance score of the command for the query (higher is better).
    pub fn relevance_score(&self, query: &str) -> (r: u32)
        requires
            self.tags@.len() <= MAX_TAGS,
        ensures
            r == relevance(self@, query@),
    {
        if !self.enabled {
            return 0;
        }
        let lq = lower_chars(query);
        let mut score: u32 = 0;
        let name = lower_chars(self.name.as_str());
        if chars_equal(&name, &lq) {
            score = score + 1000;
        } else if starts_with_chars(&name, &lq) {
            score = score + 500;
        } else if contains_chars(&name, &lq) {
            score = score + 100;
        }
        let ghost tags = strings_view(self.tags@);
        let mut i: usize = 0;
        while i < self.tags.len()
            invariant
                i <= self.tags@.len(),
                self.tags@.len() <= MAX_TAGS,
                tags == strings_view(self.tags@),
                score == name_score(self@.name, lq@) + tags_score(tags.take(i as int), lq@),
            decreases self.tags.len() - i,
        {
            proof {
                lemma_tags_score_bound(tags.take(i as int), lq@);
                assert(tags.take(i + 1).drop_last() == tags.take(i as int));
                assert(tags.take(i + 1).last() == tags[i as int]);
            }
            let t = lower_chars(self.tags[i].as_str());
            if chars_equal(&t, &lq) {
                score = score + 300;
            } else if starts_with_chars(&t, &lq) {
                score = score + 150;
            } else if contains_chars(&t, &lq) {
                score = score + 50;
            }
            i = i + 1;
        }
        assert(tags.take(self.tags@.len() as int) == tags);
        proof {
            lemma_tags_score_bound(tags, lq@);
        }
        let description = lower_chars(self.description.as_str());
        if contains_chars(&description, &lq) {
            score = score + 10;
        }
        score
    }
}

/// Result of command execution.
pub type CommandResult = Result<String, String>;

/// Something that runs a command with its arguments.
pub trait CommandFn {
    /// Whether the command may be run with the arguments.
    spec fn admits(&self, args: &[String]) -> bool;

    /// What running the command with the arguments may answer.
    spec fn runs(&self, args: &[String], r: CommandResult) -> bool;

    /// Runs the command.
    fn run(&self, args: &[String]) -> (r: CommandResult)
        requires
            self.admits(args),
        ensures
            self.runs(args, r),
    ;
}

impl<F: Fn(&[String]) -> CommandResult> CommandFn for F {
    open spec fn admits(&self, args: &[String]) -> bool {
        call_requires(*self, (args,))
    }

    open spec fn runs(&self, args: &[String], r: CommandResult) -> bool {
        call_ensures(*self, (args,), r)
    }

    fn run(&self, args: &[String]) -> (r: CommandResult) {
        (self)(args)
    }
}

/// Handler invoked with the command arguments.
pub type CommandHandler = Box<dyn CommandFn>;

/// The lexicographic order of relevance entries: higher score first, then
/// lower index.
pub open spec fn ranks_before(a: (u32, usize), b: (u32, usize)) -> bool {
    a.0 > b.0 || (a.0 == b.0 && a.1 < b.1)
}

/// Entries in strictly increasing rank order.
pub open spec fn ranked(s: Seq<(u32, usize)>) -> bool {
    forall|i: int, j: int| 0 <= i < j < s.len() ==> ranks_before(#[trigger] s[i], #[trigger] s[j])
}

/// Inserts an entry whose index is larger than every index present into a
/// ranked sequence, keeping it ranked.
fn insert_ranked(v: &mut Vec<(u32, usize)>, e: (u32, usize))
    requires
        ranked(old(v)@),
        forall|k: int| 0 <= k < old(v)@.len() ==> (#[trigger] old(v)@[k]).1 < e.1,
    ensures
        ranked(final(v)@),
        final(v)@.to_multiset() == old(v)@.to_multiset().insert(e),
        final(v)@.len() == old(v)@.len() + 1,
{
    let mut pos: usize = 0;
    while pos < v.len() && v[pos].0 >= e.0
        invariant
            pos <= v@.len(),
            forall|k: int| 0 <= k < pos ==> (#[trigger] v@[k]).0 >= e.0,
        decreases v.len() - pos,
    {
        pos = pos + 1;
    }
    let ghost before = v@;
    v.insert(pos, e);
    proof {
        broadcast use vstd::seq_lib::group_to_multiset_ensures;

        assert(v@ == before.subrange(0, pos as int).push(e) + before.subrange(
            pos as int,
            before.len() as int,
        ));
        assert forall|i: int, j: int| 0 <= i < j < v@.len() implies ranks_before(
            #[trigger] v@[i],
            #[trigger] v@[j],
        ) by {
            if j < pos {
                assert(v@[i] == before[i] && v@[j] == before[j]);
            } else if j == pos {
                assert(v@[i] == before[i]);
            } else if i < pos {
                assert(v@[i] == before[i] && v@[j] == before[j - 1]);
            } else if i == pos {
                assert(v@[j] == before[j - 1]);
                assert(before[j - 1].0 < e.0 || before[j - 1].0 >= e.0);
                if pos < before.len() {
                    assert(before[pos as int].0 < e.0);
                    if j - 1 > pos {
                        assert(ranks_before(before[pos as int], before[j - 1]));
                    }
                }
            } else {
                assert(v@[i] == before[i - 1] && v@[j] == before[j - 1]);
            }
        }
        vstd::seq_lib::to_multiset_insert(before, pos as int, e);
    }
}

/// Registered commands with their handlers.
pub struct CommandPalette {
    descriptors: Vec<CommandDescriptor>,
    handlers: Vec<CommandHandler>,
}

/// The commands' descriptors, as views.
pub open spec fn descriptor_views(cmds: Seq<CommandDescriptor>) -> Seq<DescriptorView> {
    cmds.map_values(|d: CommandDescriptor| d@)
}

/// The first command with id `id` is at index `i`.
pub open spec fn is_first_with_id(cmds: Seq<CommandDescriptor>, id: Seq<char>, i: int) -> bool {
    &&& 0 <= i < cmds.len()
    &&& cmds[i].id@ == id
    &&& forall|j: int| 0 <= j < i ==> (#[trigger] cmds[j]).id@ != id
}

/// Some command has id `id`.
pub open spec fn has_id(cmds: Seq<CommandDescriptor>, id: Seq<char>) -> bool {
    exists|i: int| 0 <= i < cmds.len() && (#[trigger] cmds[i]).id@ == id
}

/// `ks` lists, in rank order (highest relevance first, then registration
/// order), the index and relevance of exactly the commands that match the
/// query.
pub open spec fn relevance_ranking(cmds: Seq<DescriptorView>, q: Seq<char>, ks: Seq<(u32, usize)>) -> bool {
    &&& ranked(ks)
    &&& forall|k: int| 0 <= k < ks.len() ==> {
        &&& (#[trigger] ks[k]).1 < cmds.len()
        &&& descriptor_matches(cmds[ks[k].1 as int], q)
        &&& ks[k].0 == relevance(cmds[ks[k].1 as int], q)
    }
    &&& forall|i: int| 0 <= i < cmds.len() && descriptor_matches(#[trigger] cmds[i], q) ==> exists|k: int| 0 <= k < ks.len() && (#[trigger] ks[k]).1 == i
}

/// Two strictly ranked sequences with the same entries are the same.
proof fn lemma_ranked_unique(a: Seq<(u32, usize)>, b: Seq<(u32, usize)>)
    requires
        ranked(a),
        ranked(b),
        forall|x: (u32, usize)| a.contains(x) <==> b.contains(x),
    ensures
        a == b,
    decreases a.len(),
{
    if a.len() == 0 {
        if b.len() > 0 {
            assert(b.contains(b[0]));
        }
        assert(b =~= a);
    } else {
        assert(a.contains(a[0]));
        assert(b.contains(a[0]));
        let j = choose|j: int| 0 <= j < b.len() && b[j] == a[0];
        assert(b.contains(b[0]));
        assert(a.contains(b[0]));
        let i = choose|i: int| 0 <= i < a.len() && a[i] == b[0];
        if j > 0 {
            assert(ranks_before(b[0], b[j]));
            if i > 0 {
                assert(ranks_before(a[0], a[i]));
            }
        }
        assert(a[0] == b[0]);
        let ta = a.drop_first();
        let tb = b.drop_first();
        assert forall|p: int, q: int| 0 <= p < q < ta.len() implies ranks_before(#[trigger] ta[p], #[trigger] ta[q]) by {
            assert(ranks_before(a[p + 1], a[q + 1]));
        }
        assert forall|p: int, q: int| 0 <= p < q < tb.len() implies ranks_before(#[trigger] tb[p], #[trigger] tb[q]) by {
            assert(ranks_before(b[p + 1], b[q + 1]));
        }
        assert forall|x: (u32, usize)| ta.contains(x) <==> tb.contains(x) by {
            if ta.contains(x) {
                let k = choose|k: int| 0 <= k < ta.len() && ta[k] == x;
                assert(ranks_before(a[0], a[k + 1]));
                assert(a.contains(x));
                let m = choose|m: int| 0 <= m < b.len() && b[m] == x;
                assert(m != 0);
                assert(tb[m - 1] == x);
            }
            if tb.contains(x) {
                let k = choose|k: int| 0 <= k < tb.len() && tb[k] == x;
                assert(ranks_before(b[0], b[k + 1]));
                assert(b.contains(x));
                let m = choose|m: int| 0 <= m < a.len() && a[m] == x;
                assert(m != 0);
                assert(ta[m - 1] == x);
            }
        }
        lemma_ranked_unique(ta, tb);
        assert(a =~= seq![a[0]] + ta);
        assert(b =~= seq![b[0]] + tb);
    }
}

/// A query ranks a list of commands in one way only: two rankings that
/// both meet the definition are the same.
pub proof fn lemma_relevance_ranking_unique(
    cmds: Seq<DescriptorView>,
    q: Seq<char>,
    a: Seq<(u32, usize)>,
    b: Seq<(u32, usize)>,
)
    requires
        relevance_ranking(cmds, q, a),
        relevance_ranking(cmds, q, b),
    ensures
        a == b,
{
    assert forall|x: (u32, usize)| a.contains(x) <==> b.contains(x) by {
        if a.contains(x) {
            let k = choose|k: int| 0 <= k < a.len() && a[k] == x;
            assert(a[k].1 < cmds.len());
            assert(descriptor_matches(cmds[x.1 as int], q));
            let m = choose|m: int| 0 <= m < b.len() && (#[trigger] b[m]).1 == x.1;
            assert(b[m] == x);
        }
        if b.contains(x) {
            let k = choose|k: int| 0 <= k < b.len() && b[k] == x;
            assert(b[k].1 < cmds.len());
            assert(descriptor_matches(cmds[x.1 as int], q));
            let m = choose|m: int| 0 <= m < a.len() && (#[trigger] a[m]).1 == x.1;
            assert(a[m] == x);
        }
    }
    lemma_ranked_unique(a, b);
}

/// An enabled command matches a query as soon as its name, its
/// description, one of its tags or its id contains the query, compared in
/// lowercase; a disabled command matches no query.
pub proof fn lemma_match_fields(d: DescriptorView, q: Seq<char>)
    ensures
        d.enabled && contains_seq(lc(d.name), lc(q)) ==> descriptor_matches(d, q),
        d.enabled && contains_seq(lc(d.description), lc(q)) ==> descriptor_matches(d, q),
        d.enabled && contains_seq(lc(d.id), lc(q)) ==> descriptor_matches(d, q),
        forall|t: int|
            d.enabled && 0 <= t < d.tags.len() && contains_seq(lc(#[trigger] d.tags[t]), lc(q)) ==> descriptor_matches(
                d,
                q,
            ),
        descriptor_matches(d, q) ==> d.enabled,
{
}

/// Filtering keeps every command that matches: an enabled command whose
/// name, description, a tag or id contains the query (in lowercase) is
/// among the ranked results, and every result is such a command.
pub proof fn lemma_ranking_keeps_matches(cmds: Seq<DescriptorView>, q: Seq<char>, ks: Seq<(u32, usize)>, i: int)
    requires
        relevance_ranking(cmds, q, ks),
        0 <= i < cmds.len(),
    ensures
        cmds[i].enabled && (contains_seq(lc(cmds[i].name), lc(q)) || contains_seq(lc(cmds[i].description), lc(q))
            || contains_seq(lc(cmds[i].id), lc(q))) ==> exists|k: int| 0 <= k < ks.len() && (#[trigger] ks[k]).1 == i,
        forall|k: int| 0 <= k < ks.len() ==> (#[trigger] ks[k]).1 < cmds.len() && cmds[ks[k].1 as int].enabled,
{
    lemma_match_fields(cmds[i], q);
    assert forall|k: int| 0 <= k < ks.len() implies (#[trigger] ks[k]).1 < cmds.len() && cmds[ks[k].1 as int].enabled by {
        lemma_match_fields(cmds[ks[k].1 as int], q);
    }
}

/// Each tag adds its own score to the total: a tag equal to the query
/// adds 300, one starting with it 150, one containing it 50.
proof fn lemma_tags_score_at_least(tags: Seq<Seq<char>>, lq: Seq<char>, t: int)
    requires
        0 <= t < tags.len(),
    ensures
        tags_score(tags, lq) >= tag_score(tags[t], lq),
    decreases tags.len(),
{
    if t < tags.len() - 1 {
        lemma_tags_score_at_least(tags.drop_last(), lq, t);
    }
}

/// How the relevance of a command ranks it: a disabled command scores
/// nothing; an enabled one scores at least 1000 when its name is the query,
/// 500 when its name starts with it, 100 when its name contains it, 300
/// for a tag that is the query, 10 when its description contains it (all
/// compared in lowercase), and never more than 1010 plus 300 for each tag.
pub proof fn lemma_relevance_bounds(d: DescriptorView, q: Seq<char>)
    ensures
        !d.enabled ==> relevance(d, q) == 0,
        d.enabled && lc(d.name) == lc(q) ==> relevance(d, q) >= 1000,
        d.enabled && starts_with_seq(lc(d.name), lc(q)) ==> relevance(d, q) >= 500,
        d.enabled && contains_seq(lc(d.name), lc(q)) ==> relevance(d, q) >= 100,
        d.enabled && contains_seq(lc(d.description), lc(q)) ==> relevance(d, q) >= 10,
        forall|t: int| d.enabled && 0 <= t < d.tags.len() && lc(#[trigger] d.tags[t]) == lc(q) ==> relevance(d, q)
            >= 300,
        relevance(d, q) <= 1010 + 300 * d.tags.len(),
{
    lemma_tags_score_bound(d.tags, lc(q));
    assert forall|t: int| d.enabled && 0 <= t < d.tags.len() && lc(#[trigger] d.tags[t]) == lc(q) implies relevance(
        d,
        q,
    ) >= 300 by {
        lemma_tags_score_at_least(d.tags, lc(q), t);
    }
}

impl CommandPalette {
    #[verifier::type_invariant]
    closed spec fn wf(&self) -> bool {
        &&& self.descriptors@.len() == self.handlers@.len()
        &&& forall|k: int| 0 <= k < self.descriptors@.len() ==> (#[trigger] self.descriptors@[k]).tags@.len() <= MAX_TAGS
        &&& forall|k: int, a: &[String]| 0 <= k < self.handlers@.len() ==> #[trigger] self.handlers@[k].admits(a)
    }

    /// What the handler of the command at index `i` may answer to the
    /// arguments.
    pub closed spec fn handler_runs(&self, i: int, args: &[String], r: CommandResult) -> bool {
        self.handlers@[i].runs(args, r)
    }

    /// The registered command descriptors, in registration order.
    pub closed spec fn commands(&self) -> Seq<CommandDescriptor> {
        self.descriptors@
    }

    /// Creates an empty palette.
    pub fn new() -> (r: Self)
        ensures
            r.commands().len() == 0,
    {
        CommandPalette { descriptors: Vec::new(), handlers: Vec::new() }
    }

    /// Registers a command with its handler, after the existing ones.
    pub fn register_command(&mut self, descriptor: CommandDescriptor, handler: CommandHandler)
        requires
            descriptor.tags@.len() <= MAX_TAGS,
            forall|a: &[String]| #[trigger] handler.admits(a),
        ensures
            final(self).commands() == old(self).commands().push(descriptor),
            forall|i: int, a: &[String], x: CommandResult|
                0 <= i < old(self).commands().len() ==> #[trigger] final(self).handler_runs(i, a, x)
                    == old(self).handler_runs(i, a, x),
            forall|a: &[String], x: CommandResult|
                #[trigger] final(self).handler_runs(old(self).commands().len() as int, a, x) == handler.runs(a, x),
    {
        let mut tmp = CommandPalette::new();
        std::mem::swap(&mut tmp, self);
        proof {
            use_type_invariant(&tmp);
        }
        let CommandPalette { mut descriptors, mut handlers } = tmp;
        let ghost old_handlers = handlers@;
        descriptors.push(descriptor);
        handlers.push(handler);
        proof {
            vstd::seq::axiom_seq_push_len(old_handlers, handler);
            assert(handlers@ == old_handlers.push(handler));
        }
        let ghost new_handlers = handlers@;
        proof {
            assert forall|k: int, a: &[String]| 0 <= k < new_handlers.len() implies #[trigger] new_handlers[k].admits(a) by {
                if k < old_handlers.len() {
                    vstd::seq::axiom_seq_push_index_different(old_handlers, handler, k);
                } else {
                    vstd::seq::axiom_seq_push_index_same(old_handlers, handler, k);
                }
            }
        }
        *self = CommandPalette { descriptors, handlers };
        proof {
            assert(self.handlers@ == new_handlers);
            assert(old_handlers.len() == old(self).commands().len());
            assert forall|i: int, a: &[String], x: CommandResult|
                0 <= i < old(self).commands().len() implies #[trigger] self.handler_runs(i, a, x)
                    == old(self).handler_runs(i, a, x) by {
                vstd::seq::axiom_seq_push_index_different(old_handlers, handler, i);
            }
            assert forall|a: &[String], x: CommandResult|
                #[trigger] self.handler_runs(old(self).commands().len() as int, a, x) == handler.runs(a, x) by {
                vstd::seq::axiom_seq_push_index_same(old_handlers, handler, old_handlers.len() as int);
            }
        }
    }

    /// The index of the first command with the given id.
    fn position(&self, id: &CommandId) -> (r: Option<usize>)
        ensures
            match r {
                Some(i) => is_first_with_id(self.commands(), id@, i as int),
                None => !has_id(self.commands(), id@),
            },
    {
        let mut i: usize = 0;
        while i < self.descriptors.len()
            invariant
                i <= self.descriptors@.len(),
                forall|j: int| 0 <= j < i ==> (#[trigger] self.descriptors@[j]).id@ != id@,
            decreases self.descriptors.len() - i,
        {
            if self.descriptors[i].id.same_as(id) {
                return Some(i);
            }
            i = i + 1;
        }
        None
    }

    /// Unregisters the first command with the given id; returns whether one
    /// was found.
    pub fn unregister_command(&mut self, id: &CommandId) -> (r: bool)
        ensures
            r == has_id(old(self).commands(), id@),
            r ==> exists|i: int|
                is_first_with_id(old(self).commands(), id@, i) && final(self).commands() == old(
                    self,
                ).commands().remove(i) && forall|j: int, a: &[String], x: CommandResult|
                    0 <= j < final(self).commands().len() ==> #[trigger] final(self).handler_runs(j, a, x)
                        == old(self).handler_runs(
                        if j < i {
                            j
                        } else {
                            j + 1
                        },
                        a,
                        x,
                    ),
            !r ==> final(self).commands() == old(self).commands() && forall|j: int, a: &[String], x: CommandResult|
                #[trigger] final(self).handler_runs(j, a, x) == old(self).handler_runs(j, a, x),
    {
        proof {
            use_type_invariant(&*self);
        }
        match self.position(id) {
            Some(pos) => {
                let mut tmp = CommandPalette::new();
                std::mem::swap(&mut tmp, self);
                proof {
                    use_type_invariant(&tmp);
                }
                let CommandPalette { mut descriptors, mut handlers } = tmp;
                let ghost old_d = descriptors@;
                let ghost old_h = handlers@;
                descriptors.remove(pos);
                handlers.remove(pos);
                proof {
                    vstd::seq::axiom_seq_subrange_len(old_h, 0, pos as int);
                    vstd::seq::axiom_seq_subrange_len(old_h, pos + 1, old_h.len() as int);
                    vstd::seq::axiom_seq_add_len(
                        old_h.subrange(0, pos as int),
                        old_h.subrange(pos + 1, old_h.len() as int),
                    );
                    assert forall|k: int| 0 <= k < descriptors@.len() implies (#[trigger] descriptors@[k]).tags@.len() <= MAX_TAGS by {
                        if k < pos {
                            assert(descriptors@[k] == old_d[k]);
                        } else {
                            assert(descriptors@[k] == old_d[k + 1]);
                        }
                    }
                }
                *self = CommandPalette { descriptors, handlers };
                true
            },
            None => false,
        }
    }

    /// Copies of all registered descriptors, in registration order.
    pub fn list_commands(&self) -> (r: Vec<CommandDescriptor>)
        ensures
            descriptor_views(r@) == descriptor_views(self.commands()),
    {
        let mut out: Vec<CommandDescriptor> = Vec::new();
        let mut i: usize = 0;
        while i < self.descriptors.len()
            invariant
                i <= self.descriptors@.len(),
                descriptor_views(out@) == descriptor_views(self.descriptors@).take(i as int),
            decreases self.descriptors.len() - i,
        {
            let d = self.descriptors[i].duplicate();
            out.push(d);
            assert(descriptor_views(self.descriptors@).take(i + 1) == descriptor_views(
                self.descriptors@,
            ).take(i as int).push(self.descriptors@[i as int]@));
            i = i + 1;
        }
        assert(descriptor_views(self.descriptors@).take(self.descriptors@.len() as int)
            == descriptor_views(self.descriptors@));
        out
    }

    /// The commands that match the query, highest relevance first; commands
    /// of equal relevance keep their registration order.
    pub fn filter_commands(&self, query: &str) -> (r: Vec<CommandDescriptor>)
        ensures
            exists|ks: Seq<(u32, usize)>| {
                &&& relevance_ranking(descriptor_views(self.commands()), query@, ks)
                &&& r@.len() == ks.len()
                &&& forall|k: int| 0 <= k < ks.len() ==> (#[trigger] r@[k])@ == self.commands()[ks[k].1 as int]@
            },
    {
        proof {
            use_type_invariant(self);
        }
        let ghost cmds = descriptor_views(self.descriptors@);
        let mut ks: Vec<(u32, usize)> = Vec::new();
        let mut i: usize = 0;
        while i < self.descriptors.len()
            invariant
                i <= self.descriptors@.len(),
                cmds == descriptor_views(self.descriptors@),
                self.wf(),
                ranked(ks@),
                forall|k: int| 0 <= k < ks@.len() ==> {
                    &&& (#[trigger] ks@[k]).1 < i
                    &&& descriptor_matches(cmds[ks@[k].1 as int], query@)
                    &&& ks@[k].0 == relevance(cmds[ks@[k].1 as int], query@)
                },
                forall|j: int| 0 <= j < i && descriptor_matches(#[trigger] cmds[j], query@) ==> exists|k: int| 0 <= k < ks@.len() && (#[trigger] ks@[k]).1 == j,
            decreases self.descriptors.len() - i,
        {
            let d = &self.descriptors[i];
            assert(cmds[i as int] == d@);
            if d.matches(query) {
                let score = d.relevance_score(query);
                let ghost before = ks@;
                insert_ranked(&mut ks, (score, i));
                proof {
                    broadcast use vstd::seq_lib::group_to_multiset_ensures;

                    assert forall|k: int| 0 <= k < ks@.len() implies {
                        &&& (#[trigger] ks@[k]).1 < i + 1
                        &&& descriptor_matches(cmds[ks@[k].1 as int], query@)
                        &&& ks@[k].0 == relevance(cmds[ks@[k].1 as int], query@)
                    } by {
                        assert(ks@.to_multiset().contains(ks@[k]));
                        assert(before.to_multiset().insert((score, i)).contains(ks@[k]));
                        if ks@[k] != (score, i) {
                            assert(before.to_multiset().contains(ks@[k]));
                            assert(before.contains(ks@[k]));
                        }
                    }
                    assert forall|j: int| 0 <= j < i + 1 && descriptor_matches(#[trigger] cmds[j], query@) implies exists|k: int| 0 <= k < ks@.len() && (#[trigger] ks@[k]).1 == j by {
                        if j == i {
                            assert(ks@.to_multiset().contains((score, i)));
                            assert(ks@.contains((score, i)));
                        } else {
                            let k0 = choose|k: int| 0 <= k < before.len() && (#[trigger] before[k]).1 == j;
                            assert(before.to_multiset().contains(before[k0]));
                            assert(ks@.to_multiset().contains(before[k0]));
                            assert(ks@.contains(before[k0]));
                        }
                    }
                }
            }
            i = i + 1;
        }
        assert(relevance_ranking(cmds, query@, ks@));
        let mut out: Vec<CommandDescriptor> = Vec::new();
        let mut k: usize = 0;
        while k < ks.len()
            invariant
                k <= ks@.len(),
                cmds == descriptor_views(self.descriptors@),
                relevance_ranking(cmds, query@, ks@),
                forall|m: int| 0 <= m < ks@.len() ==> (#[trigger] ks@[m]).1 < self.descriptors@.len(),
                out@.len() == k,
                forall|m: int| 0 <= m < k ==> (#[trigger] out@[m])@ == self.descriptors@[ks@[m].1 as int]@,
            decreases ks.len() - k,
        {
            let idx = ks[k].1;
            assert(ks@[k as int].1 < self.descriptors@.len());
            let d = self.descriptors[idx].duplicate();
            out.push(d);
            k = k + 1;
        }
        assert(relevance_ranking(descriptor_views(self.commands()), query@, ks@) && out@.len()
            == ks@.len() && forall|k: int| 0 <= k < ks@.len() ==> (#[trigger] out@[k])@
            == self.commands()[ks@[k].1 as int]@);
        out
    }

    /// Runs the first command with the given id: an error when there is
    /// none or when it is disabled, else whatever its handler returns.
    pub fn execute_command(&self, id: &CommandId, args: &[String]) -> (r: CommandResult)
        ensures
            !has_id(self.commands(), id@) ==> (r matches Err(msg) && msg@ == "Command not found: "@
                + id@),
            forall|i: int| is_first_with_id(self.commands(), id@, i) && !self.commands()[i].enabled
                ==> (r matches Err(msg) && msg@ == "Command is disabled"@),
            forall|i: int|
                is_first_with_id(self.commands(), id@, i) && self.commands()[i].enabled
                    ==> #[trigger] self.handler_runs(i, args, r),
    {
        proof {
            use_type_invariant(self);
        }
        match self.position(id) {
            Some(i) => {
                if !self.descriptors[i].enabled {
                    return Err(owned("Command is disabled"));
                }
                self.handlers[i].run(args)
            },
            None => {
                let mut msg = owned("Command not found: ");
                push_str(&mut msg, id.as_str());
                Err(msg)
            },
        }
    }

    /// The descriptor of the first command with the given id.
    pub fn get_command(&self, id: &CommandId) -> (r: Option<&CommandDescriptor>)
        ensures
            match r {
                Some(d) => exists|i: int| is_first_with_id(self.commands(), id@, i) && *d
                    == self.commands()[i],
                None => !has_id(self.commands(), id@),
            },
    {
        match self.position(id) {
            Some(i) => Some(&self.descriptors[i]),
            None => None,
        }
    }
}

} // verus!
