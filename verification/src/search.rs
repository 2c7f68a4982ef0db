//! The search configuration builder, the compiled matcher, and the concurrent
//! traversal that streams matching paths to the caller.

use crate::filter::EntryMeta;
use crate::filter::FilterType;
use crate::utils::expand_tilde_spec;
use crate::utils::is_expansion_of;
use crate::utils::replace_tilde_with_home_dir;
use vstd::prelude::*;
use vstd::string::StrSliceExecFns;
use vstd::string::StringExecFns;

verus! {

/// The matcher collaborator's compiled pattern.
#[verifier::external_type_specification]
#[verifier::external_body]
pub struct ExRegex(regex::Regex);

/// The enumerator collaborator's traversal configuration.
#[verifier::external_type_specification]
#[verifier::external_body]
pub struct ExWalkBuilder(ignore::WalkBuilder);

/// The enumerator collaborator's per-entry error.
#[verifier::external_type_specification]
#[verifier::external_body]
pub struct ExIgnoreError(ignore::Error);

/// The delivering end of the result channel.
#[verifier::external_type_specification]
#[verifier::external_body]
#[verifier::reject_recursive_types(T)]
pub struct ExSender<T>(std::sync::mpsc::Sender<T>);

/// The consuming end of the result channel.
#[verifier::external_type_specification]
#[verifier::external_body]
#[verifier::reject_recursive_types(T)]
pub struct ExReceiver<T>(std::sync::mpsc::Receiver<T>);

/// Whether the matcher collaborator accepts the pattern text as compilable.
pub uninterp spec fn regex_ok(pattern: Seq<char>) -> bool;

/// The pattern text a compiled matcher was built from.
pub uninterp spec fn regex_source(re: regex::Regex) -> Seq<char>;

/// The matcher collaborator's verdict for a pattern on a haystack.
pub uninterp spec fn regex_matches(pattern: Seq<char>, text: Seq<char>) -> bool;

/// Compiles a textual pattern into a matcher.
/// Relies on `regex::Regex::new`: it succeeds exactly on compilable pattern
/// text, and the compiled matcher keeps its pattern text (`Regex::as_str`).
#[verifier::external_body]
fn compile_pattern(pattern: &str) -> (r: Option<regex::Regex>)
    ensures
        r is Some <==> regex_ok(pattern@),
        r is Some ==> regex_source(r->0) == pattern@,
{
    regex::Regex::new(pattern).ok()
}

/// Tests a string against a compiled matcher.
/// Relies on `regex::Regex::is_match`: the verdict depends on the matcher's
/// pattern text and the haystack alone.
#[verifier::external_body]
fn pattern_matches(re: &regex::Regex, text: &str) -> (r: bool)
    ensures
        r == regex_matches(regex_source(*re), text@),
{
    re.is_match(text)
}

/// The root paths a traversal configuration holds, in registration order.
pub uninterp spec fn walker_roots(w: ignore::WalkBuilder) -> Seq<Seq<char>>;

/// Whether a traversal configuration skips hidden entries.
pub uninterp spec fn walker_skips_hidden(w: ignore::WalkBuilder) -> bool;

/// Whether a traversal configuration honors git ignore files.
pub uninterp spec fn walker_honors_ignore_files(w: ignore::WalkBuilder) -> bool;

/// The recursion bound a traversal configuration holds, `None` for unbounded.
pub uninterp spec fn walker_depth(w: ignore::WalkBuilder) -> Option<usize>;

/// The worker count a traversal configuration holds; zero asks the enumerator
/// to choose by its own heuristics.
pub uninterp spec fn walker_worker_count(w: ignore::WalkBuilder) -> usize;

/// Starts a traversal configuration rooted at the given path.
/// Relies on `ignore::WalkBuilder::new` and its defaults: one root, hidden
/// entries skipped, ignore files honored, depth unbounded, worker count left
/// to the enumerator.
#[verifier::external_body]
fn walker_new(root: &String) -> (r: ignore::WalkBuilder)
    ensures
        walker_roots(r) == seq![root@],
        walker_skips_hidden(r) == true,
        walker_honors_ignore_files(r) == true,
        walker_depth(r) is None,
        walker_worker_count(r) == 0usize,
{
    ignore::WalkBuilder::new(root.as_str())
}

/// Sets whether hidden entries are skipped.
/// Relies on `ignore::WalkBuilder::hidden`, which touches nothing else.
#[verifier::external_body]
fn walker_skip_hidden(w: &mut ignore::WalkBuilder, skip: bool)
    ensures
        walker_skips_hidden(*final(w)) == skip,
        walker_roots(*final(w)) == walker_roots(*old(w)),
        walker_honors_ignore_files(*final(w)) == walker_honors_ignore_files(*old(w)),
        walker_depth(*final(w)) == walker_depth(*old(w)),
        walker_worker_count(*final(w)) == walker_worker_count(*old(w)),
{
    w.hidden(skip);
}

/// Sets whether git ignore rules are honored.
/// Relies on `ignore::WalkBuilder::git_ignore`, which touches nothing else.
#[verifier::external_body]
fn walker_git_ignore(w: &mut ignore::WalkBuilder, honor: bool)
    ensures
        walker_honors_ignore_files(*final(w)) == honor,
        walker_roots(*final(w)) == walker_roots(*old(w)),
        walker_skips_hidden(*final(w)) == walker_skips_hidden(*old(w)),
        walker_depth(*final(w)) == walker_depth(*old(w)),
        walker_worker_count(*final(w)) == walker_worker_count(*old(w)),
{
    w.git_ignore(honor);
}

/// Bounds the recursion depth, `None` meaning unbounded.
/// Relies on `ignore::WalkBuilder::max_depth`, which touches no field named
/// here beside the bound.
#[verifier::external_body]
fn walker_max_depth(w: &mut ignore::WalkBuilder, depth: Option<usize>)
    ensures
        walker_depth(*final(w)) == depth,
        walker_roots(*final(w)) == walker_roots(*old(w)),
        walker_skips_hidden(*final(w)) == walker_skips_hidden(*old(w)),
        walker_honors_ignore_files(*final(w)) == walker_honors_ignore_files(*old(w)),
        walker_worker_count(*final(w)) == walker_worker_count(*old(w)),
{
    w.max_depth(depth);
}

/// Sets the number of traversal workers.
/// Relies on `ignore::WalkBuilder::threads`, which touches nothing else.
#[verifier::external_body]
fn walker_threads(w: &mut ignore::WalkBuilder, n: usize)
    ensures
        walker_worker_count(*final(w)) == n,
        walker_roots(*final(w)) == walker_roots(*old(w)),
        walker_skips_hidden(*final(w)) == walker_skips_hidden(*old(w)),
        walker_honors_ignore_files(*final(w)) == walker_honors_ignore_files(*old(w)),
        walker_depth(*final(w)) == walker_depth(*old(w)),
{
    w.threads(n);
}

/// Registers one more root so all roots are traversed as one parallel job.
/// Relies on `ignore::WalkBuilder::add`, which touches nothing else.
#[verifier::external_body]
fn walker_add_root(w: &mut ignore::WalkBuilder, root: &String)
    ensures
        walker_roots(*final(w)) == walker_roots(*old(w)).push(root@),
        walker_skips_hidden(*final(w)) == walker_skips_hidden(*old(w)),
        walker_honors_ignore_files(*final(w)) == walker_honors_ignore_files(*old(w)),
        walker_depth(*final(w)) == walker_depth(*old(w)),
        walker_worker_count(*final(w)) == walker_worker_count(*old(w)),
{
    w.add(root.as_str());
}

/// The number of available processors.
/// Relies on `num_cpus::get`.
#[verifier::external_body]
fn available_processors() -> usize {
    num_cpus::get()
}

/// A fresh multi-producer, single-consumer channel of path strings.
/// Relies on `std::sync::mpsc::channel`: an unbounded queue; whatever the
/// senders deliver, the receiver yields.
#[verifier::external_body]
fn result_channel() -> (std::sync::mpsc::Sender<String>, std::sync::mpsc::Receiver<String>) {
    std::sync::mpsc::channel()
}

/// Attempts to deliver one matching path to the consumer.
/// Relies on `std::sync::mpsc::Sender::send`: delivery succeeds exactly while
/// the receiving end is alive.
#[verifier::external_body]
fn deliver(tx: &std::sync::mpsc::Sender<String>, path: String) -> bool {
    tx.send(path).is_ok()
}

/// Pulls the next delivered path, or `None` once every sender is gone and the
/// queue is drained.
/// Relies on `std::sync::mpsc::Receiver::recv`.
#[verifier::external_body]
fn next_delivery(rx: &std::sync::mpsc::Receiver<String>) -> Option<String> {
    rx.recv().ok()
}

/// The file name a visited entry carries, lossily decoded to text; for a
/// bare root such as `/` the full path. It is a function of the entry value,
/// which holds its path.
pub uninterp spec fn entry_name_of(e: ignore::DirEntry) -> Seq<char>;

/// The file name of a visited entry, lossily decoded to text; for a bare
/// root such as `/` the full path.
/// Relies on `ignore::DirEntry::file_name` and `OsStr::to_string_lossy`: the
/// text depends on the entry value alone.
#[verifier::external_body]
fn entry_file_name(e: &ignore::DirEntry) -> (r: String)
    ensures
        r@ == entry_name_of(*e),
{
    e.file_name().to_string_lossy().to_string()
}

/// The full path of a visited entry as text.
/// Relies on `ignore::DirEntry::path` and `Path::display`.
#[verifier::external_body]
fn entry_path_text(e: &ignore::DirEntry) -> String {
    e.path().display().to_string()
}

/// What a traversal worker does after visiting one entry: go on, or stop.
#[derive(Clone, Copy, PartialEq, Eq, Structural, Debug)]
pub enum WalkDecision {
    /// Keep walking.
    Advance,
    /// Quit the traversal as soon as possible.
    Halt,
}

/// Runs the parallel traversal to completion: every worker hands each visited
/// entry to `visit_entry`, which delivers matches through the channel.
/// Relies on `ignore::WalkParallel::run` for the traversal itself, and on
/// clones of the matcher, the filters and the sender handed to each worker.
#[verifier::external_body]
fn run_traversal(
    w: &ignore::WalkBuilder,
    re: &regex::Regex,
    filters: &Vec<FilterType>,
    tx: std::sync::mpsc::Sender<String>,
    limit: Option<usize>,
) {
    w.build_parallel().run(|| {
        let tx = tx.clone();
        let re = re.clone();
        let filters = filters.clone();
        let mut counter = 0usize;
        Box::new(move |entry| match visit_entry(entry, &re, &filters, &tx, limit, &mut counter) {
            WalkDecision::Advance => ignore::WalkState::Continue,
            WalkDecision::Halt => ignore::WalkState::Quit,
        })
    });
}

/// Whether a worker that just attempted a delivery keeps walking: it does
/// exactly when the delivery succeeded and its own count of earlier
/// successful deliveries is below any configured result limit.
pub open spec fn advances(sent: bool, counter: usize, limit: Option<usize>) -> bool {
    sent && (limit is None || counter < limit->0)
}

/// The worker's count of successful deliveries after one attempt: one more
/// when it advances (capped at the largest representable count), else as it
/// was.
pub open spec fn next_counter(sent: bool, counter: usize, limit: Option<usize>) -> usize {
    if advances(sent, counter, limit) && counter < usize::MAX {
        (counter + 1) as usize
    } else {
        counter
    }
}

/// After one delivery attempt: whether the worker keeps walking, and its
/// updated delivery count.
pub fn entry_decision(sent: bool, counter: usize, limit: Option<usize>) -> (r: (
    WalkDecision,
    usize,
))
    ensures
        r.0 is Advance <==> advances(sent, counter, limit),
        r.1 == next_counter(sent, counter, limit),
{
    let below = match limit {
        None => true,
        Some(l) => counter < l,
    };
    if sent && below {
        let c = if counter < usize::MAX {
            counter + 1
        } else {
            counter
        };
        (WalkDecision::Advance, c)
    } else {
        (WalkDecision::Halt, counter)
    }
}

/// One worker's handling of one visited entry: a readable entry whose file
/// name matches the compiled expression and whose filters all pass is
/// delivered to the consumer, and the worker then advances or halts as
/// `entry_decision` says; any other entry lets the worker advance and leaves
/// its count alone. A halt or a count change therefore witnesses a matching,
/// filter-passing entry and one delivery attempt, and the count never climbs
/// past a configured limit it has already reached.
pub(crate) fn visit_entry(
    entry: Result<ignore::DirEntry, ignore::Error>,
    re: &regex::Regex,
    filters: &Vec<FilterType>,
    tx: &std::sync::mpsc::Sender<String>,
    limit: Option<usize>,
    counter: &mut usize,
) -> (d: WalkDecision)
    ensures
        *old(counter) <= *final(counter) <= *old(counter) + 1,
        limit is Some && *old(counter) >= limit->0 ==> *final(counter) == *old(counter),
        entry is Err ==> d is Advance && *final(counter) == *old(counter),
        entry is Ok && !regex_matches(regex_source(*re), entry_name_of(entry->Ok_0)) ==> d
            is Advance && *final(counter) == *old(counter),
        d is Halt || *final(counter) != *old(counter) ==> entry is Ok && regex_matches(
            regex_source(*re),
            entry_name_of(entry->Ok_0),
        ),
        d is Halt || *final(counter) != *old(counter) ==> exists|m: EntryMeta, verdicts: Seq<bool>|
            verdicts.len() == filters@.len() && #[trigger] crate::filter::filters_pass_spec(
                filters@,
                m,
                verdicts,
            ),
        d is Halt || *final(counter) != *old(counter) ==> exists|sent: bool|
            ((d is Advance <==> #[trigger] advances(sent, *old(counter), limit))
                && *final(counter) == next_counter(sent, *old(counter), limit)),
{
    match entry {
        Ok(e) => {
            let name = entry_file_name(&e);
            if pattern_matches(re, name.as_str()) && crate::filter::entry_passes_filters(
                filters,
                &e,
            ) {
                proof {
                    let (m, verdicts) = choose|m: EntryMeta, verdicts: Seq<bool>|
                        verdicts.len() == filters@.len() && true == #[trigger]
                        crate::filter::filters_pass_spec(filters@, m, verdicts);
                    assert(verdicts.len() == filters@.len() && crate::filter::filters_pass_spec(
                        filters@,
                        m,
                        verdicts,
                    ));
                }
                let sent = deliver(tx, entry_path_text(&e));
                let (d, c) = entry_decision(sent, *counter, limit);
                *counter = c;
                d
            } else {
                WalkDecision::Advance
            }
        },
        Err(_) => WalkDecision::Advance,
    }
}

/// The error of `build`: the only fatal construction error.
#[derive(Clone, Copy, PartialEq, Eq, Structural, Debug)]
pub enum SearchError {
    /// The composed name-matching expression does not compile.
    InvalidPattern,
}

/// The effective name-matching expression: an optional case-insensitivity
/// marker, then the name pattern (one or more word characters when absent),
/// then — outside strict mode — anything, then a literal dot, the extension
/// (any when absent) and the end of the name.
pub open spec fn composed_pattern(
    input: Option<Seq<char>>,
    ext: Option<Seq<char>>,
    strict: bool,
    ignore_case: bool,
) -> Seq<char> {
    (if ignore_case {
        "(?i)"@
    } else {
        Seq::<char>::empty()
    }) + (if input is Some {
        input->0
    } else {
        "\\w+"@
    }) + (if strict {
        Seq::<char>::empty()
    } else {
        ".*"@
    }) + "\\."@ + (if ext is Some {
        ext->0
    } else {
        "*"@
    }) + "$"@
}

/// Composes the effective name-matching expression of a configuration.
pub fn compose_expression(
    input: &Option<String>,
    ext: &Option<String>,
    strict: bool,
    ignore_case: bool,
) -> (r: String)
    ensures
        r@ == composed_pattern(input.deep_view(), ext.deep_view(), strict, ignore_case),
{
    let mut s = String::new();
    if ignore_case {
        s.append("(?i)");
    }
    match input {
        Some(i) => s.append(i.as_str()),
        None => s.append("\\w+"),
    }
    if !strict {
        s.append(".*");
    }
    s.append("\\.");
    match ext {
        Some(e) => s.append(e.as_str()),
        None => s.append("*"),
    }
    s.append("$");
    proof {
        assert(s@ =~= composed_pattern(input.deep_view(), ext.deep_view(), strict, ignore_case));
    }
    s
}

/// A started search: the consuming end of the result channel, truncated to
/// the configured result limit. The sequence is single-use; once consumed or
/// abandoned it cannot be restarted.
pub struct Search {
    receiver: std::sync::mpsc::Receiver<String>,
    remaining: Option<usize>,
    done: bool,
}

impl Search {
    /// How many more items this sequence may still yield: `None` when no
    /// result limit was configured, else the remainder of the limit.
    pub closed spec fn budget(&self) -> Option<usize> {
        self.remaining
    }

    /// Whether the sequence has ended: it has yielded `None` once — the limit
    /// was spent or the traversal was exhausted — and yields `None` forever.
    pub closed spec fn finished(&self) -> bool {
        self.done
    }

    /// Builds the matcher and starts the traversal, in order: compose the
    /// expression; compile it (the only fatal error); configure the
    /// enumerator with the primary root, hidden-entry policy, ignore-file
    /// honoring, the depth bound and a worker count of at most twelve;
    /// register every additional root; then stream matches through a channel
    /// whose consuming end, truncated to the limit, is the result.
    pub(crate) fn new(
        search_location: String,
        more_locations: Option<Vec<String>>,
        search_input: Option<String>,
        file_ext: Option<String>,
        depth: Option<usize>,
        limit: Option<usize>,
        strict: bool,
        ignore_case: bool,
        hidden: bool,
        filters: Vec<FilterType>,
    ) -> (r: Result<Search, SearchError>)
        ensures
            r is Ok <==> regex_ok(
                composed_pattern(search_input.deep_view(), file_ext.deep_view(), strict, ignore_case),
            ),
            r is Err ==> r->Err_0 == SearchError::InvalidPattern,
            r is Ok ==> r->Ok_0.budget() == limit && !r->Ok_0.finished(),
    {
        let expression = compose_expression(&search_input, &file_ext, strict, ignore_case);
        let re = match compile_pattern(expression.as_str()) {
            Some(re) => re,
            None => {
                return Err(SearchError::InvalidPattern);
            },
        };
        let mut walker = walker_new(&search_location);
        walker_skip_hidden(&mut walker, !hidden);
        walker_git_ignore(&mut walker, true);
        walker_max_depth(&mut walker, depth);
        let cpus = available_processors();
        let chosen = if cpus < 12 {
            cpus
        } else {
            12
        };
        walker_threads(&mut walker, chosen);
        let worker_count = chosen;
        if let Some(locations) = &more_locations {
            let mut i: usize = 0;
            while i < locations.len()
                invariant
                    i <= locations@.len(),
                    walker_roots(walker) =~= seq![search_location@] + locations.deep_view()
                        .subrange(0, i as int),
                    walker_skips_hidden(walker) == !hidden,
                    walker_honors_ignore_files(walker),
                    walker_depth(walker) == depth,
                    walker_worker_count(walker) == worker_count,
                decreases locations@.len() - i,
            {
                walker_add_root(&mut walker, &locations[i]);
                proof {
                    assert(walker_roots(walker) =~= seq![search_location@] + locations.deep_view()
                        .subrange(0, i + 1));
                }
                i += 1;
            }
        }
        proof {
            // The enumerator is configured exactly as the contract of `build`
            // describes: the given roots, the inverse of the hidden flag,
            // ignore files honored, the given depth bound, and the lesser of
            // twelve and the available processors as workers.
            assert(walker_roots(walker)[0] == search_location@);
            assert(walker_skips_hidden(walker) == !hidden);
            assert(walker_honors_ignore_files(walker));
            assert(walker_depth(walker) == depth);
            assert(walker_worker_count(walker) == worker_count);
        }
        let (tx, rx) = result_channel();
        run_traversal(&walker, &re, &filters, tx, limit);
        Ok(Search { receiver: rx, remaining: limit, done: false })
    }

    /// The next matching path in arrival order, or `None` once the result
    /// limit is exhausted or the traversal has delivered everything. With a
    /// limit of `k`, at most `k` pulls yield an item: each one spends one
    /// unit of the budget, and a spent budget yields `None` forever.
    pub fn next(&mut self) -> (r: Option<String>)
        ensures
            old(self).budget() == Some(0usize) ==> r is None && final(self).budget() == Some(
                0usize,
            ),
            r is Some ==> old(self).budget() != Some(0usize) && !old(self).finished(),
            old(self).budget() is None ==> final(self).budget() is None,
            old(self).budget() is Some && old(self).budget()->0 > 0 ==> final(self).budget() == (
            if r is Some {
                Some((old(self).budget()->0 - 1) as usize)
            } else {
                old(self).budget()
            }),
            old(self).finished() ==> r is None && final(self).budget() == old(self).budget(),
            r is None <==> final(self).finished(),
    {
        if self.done {
            return None;
        }
        match self.remaining {
            Some(0) => {
                self.done = true;
                None
            },
            Some(k) => {
                let r = next_delivery(&self.receiver);
                if r.is_some() {
                    self.remaining = Some(k - 1);
                } else {
                    self.done = true;
                }
                r
            },
            None => {
                let r = next_delivery(&self.receiver);
                if r.is_none() {
                    self.done = true;
                }
                r
            },
        }
    }
}

/// An extension text with one leading separator dot stripped.
pub open spec fn strip_dot_spec(e: Seq<char>) -> Seq<char> {
    if e.len() >= 1 && e[0] == '.' {
        e.subrange(1, e.len() as int)
    } else {
        e
    }
}

/// Law: a leading dot on the extension text is immaterial. An extension given
/// with a leading dot stores the same value as the same extension given bare,
/// so the two configurations match identically.
pub proof fn lemma_ext_leading_dot_immaterial(dotted: Seq<char>, bare: Seq<char>)
    requires
        dotted == seq!['.'] + bare,
        bare.len() == 0 || bare[0] != '.',
    ensures
        strip_dot_spec(dotted) == strip_dot_spec(bare),
{
    assert(strip_dot_spec(dotted) =~= bare);
}

/// A search configuration: a pure value, assembled by chained calls and never
/// mutated by `build`, so one configuration can back repeated searches.
pub struct SearchBuilder {
    pub(crate) search_location: String,
    pub(crate) more_locations: Option<Vec<String>>,
    pub(crate) search_input: Option<String>,
    pub(crate) file_ext: Option<String>,
    pub(crate) depth: Option<usize>,
    pub(crate) limit: Option<usize>,
    pub(crate) strict: bool,
    pub(crate) ignore_case: bool,
    pub(crate) hidden: bool,
    pub(crate) filters: Vec<FilterType>,
}

/// The abstract value of a configuration.
pub struct BuilderView {
    pub search_location: Seq<char>,
    pub more_locations: Option<Seq<Seq<char>>>,
    pub search_input: Option<Seq<char>>,
    pub file_ext: Option<Seq<char>>,
    pub depth: Option<usize>,
    pub limit: Option<usize>,
    pub strict: bool,
    pub ignore_case: bool,
    pub hidden: bool,
    pub filters: Seq<FilterType>,
}

impl View for SearchBuilder {
    type V = BuilderView;

    closed spec fn view(&self) -> BuilderView {
        BuilderView {
            search_location: self.search_location@,
            more_locations: self.more_locations.deep_view(),
            search_input: self.search_input.deep_view(),
            file_ext: self.file_ext.deep_view(),
            depth: self.depth,
            limit: self.limit,
            strict: self.strict,
            ignore_case: self.ignore_case,
            hidden: self.hidden,
            filters: self.filters@,
        }
    }
}

impl Default for SearchBuilder {
    /// The defaults: search under the current working directory (the
    /// relative root `.`), match any word-like name with any extension, no
    /// depth or result bound, non-strict, case-sensitive, hidden entries
    /// excluded, no filters.
    fn default() -> (r: Self)
        ensures
            r@ == (BuilderView {
                search_location: "."@,
                more_locations: None,
                search_input: None,
                file_ext: None,
                depth: None,
                limit: None,
                strict: false,
                ignore_case: false,
                hidden: false,
                filters: Seq::empty(),
            }),
    {
        SearchBuilder {
            search_location: ".".to_owned(),
            more_locations: None,
            search_input: None,
            file_ext: None,
            depth: None,
            limit: None,
            strict: false,
            ignore_case: false,
            hidden: false,
            filters: Vec::new(),
        }
    }
}

impl SearchBuilder {
    /// Validates that the configured pattern compiles and constructs a
    /// started search; the configuration itself is left untouched. Fails
    /// with `InvalidPattern` exactly when the composed expression is not
    /// compilable.
    pub fn build(&self) -> (r: Result<Search, SearchError>)
        ensures
            r is Ok <==> regex_ok(
                composed_pattern(self@.search_input, self@.file_ext, self@.strict, self@.ignore_case),
            ),
            r is Err ==> r->Err_0 == SearchError::InvalidPattern,
            r is Ok ==> r->Ok_0.budget() == self@.limit,
    {
        Search::new(
            self.search_location.clone(),
            clone_locations(&self.more_locations),
            clone_text(&self.search_input),
            clone_text(&self.file_ext),
            self.depth,
            self.limit,
            self.strict,
            self.ignore_case,
            self.hidden,
            self.filters.clone(),
        )
    }

    /// Sets the primary root to search, expanding a leading home-directory
    /// marker; when the home directory cannot be resolved the path is kept
    /// as given.
    pub fn location(self, location: &str) -> (r: Self)
        ensures
            r@ == (BuilderView { search_location: r@.search_location, ..self@ }),
            is_expansion_of(r@.search_location, location@),
            location@.len() == 0 || location@[0] != '~' ==> r@.search_location == location@,
    {
        SearchBuilder { search_location: replace_tilde_with_home_dir(location), ..self }
    }

    /// Sets the extra roots, each independently expanded of a leading
    /// home-directory marker.
    pub fn more_locations(self, locations: Vec<String>) -> (r: Self)
        ensures
            r@ == (BuilderView { more_locations: r@.more_locations, ..self@ }),
            r@.more_locations is Some,
            r@.more_locations->0.len() == locations@.len(),
            forall|i: int| #![trigger locations@[i]]
                0 <= i < locations@.len() && (locations@[i]@.len() == 0 || locations@[i]@[0]
                    != '~') ==> r@.more_locations->0[i] == locations@[i]@,
            forall|i: int| #![trigger locations@[i]]
                0 <= i < locations@.len() ==> is_expansion_of(
                    r@.more_locations->0[i],
                    locations@[i]@,
                ),
    {
        let mut expanded: Vec<String> = Vec::new();
        let ghost mut homes: Seq<Option<Seq<char>>> = Seq::empty();
        let mut i: usize = 0;
        while i < locations.len()
            invariant
                i <= locations@.len(),
                expanded@.len() == i,
                homes.len() == i,
                forall|j: int| #![trigger locations@[j]]
                    0 <= j < i && (locations@[j]@.len() == 0 || locations@[j]@[0] != '~')
                        ==> expanded@[j]@ == locations@[j]@,
                forall|j: int| #![trigger homes[j]]
                    0 <= j < i ==> expanded@[j]@ == expand_tilde_spec(locations@[j]@, homes[j]),
            decreases locations@.len() - i,
        {
            let one = replace_tilde_with_home_dir(locations[i].as_str());
            proof {
                let home = choose|home: Option<Seq<char>>|
                    one@ == expand_tilde_spec(locations@[i as int]@, home);
                homes = homes.push(home);
            }
            expanded.push(one);
            i += 1;
        }
        let r = SearchBuilder { more_locations: Some(expanded), ..self };
        proof {
            assert(r@.more_locations->0 =~= expanded.deep_view());
            assert forall|i: int| #![trigger locations@[i]]
                0 <= i < locations@.len() && (locations@[i]@.len() == 0 || locations@[i]@[0]
                    != '~') implies r@.more_locations->0[i] == locations@[i]@ by {
                assert(r@.more_locations->0[i] == expanded@[i]@);
            }
            assert forall|i: int| #![trigger locations@[i]]
                0 <= i < locations@.len() implies is_expansion_of(
                r@.more_locations->0[i],
                locations@[i]@,
            ) by {
                assert(expanded@[i]@ == expand_tilde_spec(locations@[i]@, homes[i]));
                assert(r@.more_locations->0[i] == expanded@[i]@);
                assert(r@.more_locations->0[i] == expand_tilde_spec(locations@[i]@, homes[i]));
            }
        }
        r
    }

    /// Sets the text pattern matched against file names.
    pub fn search_input(self, input: &str) -> (r: Self)
        ensures
            r@ == (BuilderView { search_input: Some(input@), ..self@ }),
    {
        SearchBuilder { search_input: Some(input.to_owned()), ..self }
    }

    /// Sets the file-extension filter; one leading separator dot, if given,
    /// is stripped, so the stored value never carries the dot. The remainder
    /// is not validated.
    pub fn ext(self, ext: &str) -> (r: Self)
        ensures
            r@ == (BuilderView { file_ext: Some(strip_dot_spec(ext@)), ..self@ }),
    {
        let n = ext.unicode_len();
        let stored = if n >= 1 && ext.get_char(0) == '.' {
            let rest = ext.substring_char(1, n);
            rest.to_owned()
        } else {
            ext.to_owned()
        };
        SearchBuilder { file_ext: Some(stored), ..self }
    }

    /// Sets the recursion bound; zero yields zero recursion.
    pub fn depth(self, depth: usize) -> (r: Self)
        ensures
            r@ == (BuilderView { depth: Some(depth), ..self@ }),
    {
        SearchBuilder { depth: Some(depth), ..self }
    }

    /// Caps the number of results; zero yields zero results.
    pub fn limit(self, limit: usize) -> (r: Self)
        ensures
            r@ == (BuilderView { limit: Some(limit), ..self@ }),
    {
        SearchBuilder { limit: Some(limit), ..self }
    }

    /// Requires the name pattern to be immediately followed by the extension
    /// and the end of the name. The flag cannot be reset within a chain.
    pub fn strict(self) -> (r: Self)
        ensures
            r@ == (BuilderView { strict: true, ..self@ }),
    {
        SearchBuilder { strict: true, ..self }
    }

    /// Makes matching case-insensitive. The flag cannot be reset within a
    /// chain.
    pub fn ignore_case(self) -> (r: Self)
        ensures
            r@ == (BuilderView { ignore_case: true, ..self@ }),
    {
        SearchBuilder { ignore_case: true, ..self }
    }

    /// Includes hidden entries in the traversal. The flag cannot be reset
    /// within a chain.
    pub fn hidden(self) -> (r: Self)
        ensures
            r@ == (BuilderView { hidden: true, ..self@ }),
    {
        SearchBuilder { hidden: true, ..self }
    }

    /// Appends one filter predicate; insertion order is preserved, though
    /// evaluation is a plain conjunction.
    pub fn filter(self, filter: FilterType) -> (r: Self)
        ensures
            r@ == (BuilderView { filters: self@.filters.push(filter), ..self@ }),
    {
        let mut filters = self.filters;
        filters.push(filter);
        SearchBuilder { filters, ..self }
    }
}

/// A copy of an optional text field with the same characters.
fn clone_text(text: &Option<String>) -> (r: Option<String>)
    ensures
        r.deep_view() == text.deep_view(),
{
    match text {
        Some(t) => {
            let c = t.clone();
            proof {
                assert(Some(c).deep_view() =~= text.deep_view());
            }
            Some(c)
        },
        None => None,
    }
}

/// A copy of the optional extra-roots field with the same texts.
fn clone_locations(locations: &Option<Vec<String>>) -> (r: Option<Vec<String>>)
    ensures
        r.deep_view() == locations.deep_view(),
{
    match locations {
        Some(list) => {
            let mut copy: Vec<String> = Vec::new();
            let mut i: usize = 0;
            while i < list.len()
                invariant
                    i <= list@.len(),
                    copy@.len() == i,
                    forall|j: int| 0 <= j < i ==> copy@[j]@ == list@[j]@,
                decreases list@.len() - i,
            {
                copy.push(list[i].clone());
                i += 1;
            }
            proof {
                assert(Some(copy).deep_view() =~= locations.deep_view());
            }
            Some(copy)
        },
        None => None,
    }
}

} // verus!
