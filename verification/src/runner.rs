//! The test-running harness: an HTTP client bound to an endpoint, the outcome
//! of each check, and the report over a run.
use vstd::prelude::*;
use crate::text::{
    decimal, lemma_decimal_digits, lemma_decimal_injective, lemma_leading_slashes,
    lemma_split_at_first_slash, lemma_leading_slashes_absorbed, lemma_trailing_slashes,
    lemma_trailing_slashes_absorbed, push_decimal, slashes, trim_leading_slashes,
    trim_trailing_slashes, without_leading_slashes, without_trailing_slashes,
};

verus! {

/// The HTTP client type of `reqwest`, carried through unopened.
#[verifier::external_type_specification]
#[verifier::external_body]
pub struct ExClient(reqwest::Client);

/// The builder of an HTTP client of `reqwest`, carried through unopened.
#[verifier::external_type_specification]
#[verifier::external_body]
pub struct ExClientBuilder(reqwest::ClientBuilder);

/// The error type of `reqwest`, carried through unopened.
#[verifier::external_type_specification]
#[verifier::external_body]
pub struct ExHttpError(reqwest::Error);

/// Calls `reqwest::Client::builder`, which makes a builder with the default
/// configuration. Nothing is claimed of the builder: it is only handed on.
#[verifier::external_body]
fn client_builder() -> (builder: reqwest::ClientBuilder) {
    reqwest::Client::builder()
}

/// Calls `reqwest::ClientBuilder::build`. It fails when a TLS backend cannot be
/// initialized or the resolver cannot load the system configuration, which
/// depends on the machine, so nothing is claimed of which way it goes.
#[verifier::external_body]
fn build_client(builder: reqwest::ClientBuilder) -> (client: Result<reqwest::Client, reqwest::Error>) {
    builder.build()
}

/// The URL for `path` under `endpoint`: the endpoint without its trailing
/// slashes, one slash, and the path without its leading slashes.
pub open spec fn joined_url(endpoint: Seq<char>, path: Seq<char>) -> Seq<char> {
    without_trailing_slashes(endpoint) + seq!['/'] + without_leading_slashes(path)
}

/// Slashes at the end of the endpoint and at the start of the path do not
/// change the URL: `http://h/` with `/a` gives what `http://h` with `a` gives.
pub proof fn lemma_url_ignores_extra_slashes(endpoint: Seq<char>, path: Seq<char>, k: nat, m: nat)
    ensures
        joined_url(endpoint + slashes(k), slashes(m) + path) == joined_url(endpoint, path),
{
    lemma_trailing_slashes_absorbed(endpoint, k);
    lemma_leading_slashes_absorbed(path, m);
}

/// The URL is the endpoint less some trailing slashes, exactly one slash, and
/// the path less some leading slashes; no slash is left on either side of the
/// joining one.
pub proof fn lemma_url_shape(endpoint: Seq<char>, path: Seq<char>)
    ensures
        exists|base: Seq<char>, rest: Seq<char>, k: nat, m: nat|
            #![trigger base + slashes(k), slashes(m) + rest]
            {
                &&& endpoint == base + slashes(k)
                &&& path == slashes(m) + rest
                &&& joined_url(endpoint, path) == base + seq!['/'] + rest
                &&& (base.len() == 0 || base.last() != '/')
                &&& (rest.len() == 0 || rest[0] != '/')
            },
{
    lemma_trailing_slashes(endpoint);
    lemma_leading_slashes(path);
    let base = without_trailing_slashes(endpoint);
    let rest = without_leading_slashes(path);
    let k = choose|k: nat| endpoint == base + #[trigger] slashes(k);
    let m = choose|m: nat| path == #[trigger] slashes(m) + rest;
    assert(endpoint == base + slashes(k) && path == slashes(m) + rest && joined_url(endpoint, path)
        == base + seq!['/'] + rest);
}

/// Everything a check needs to talk to the endpoint under test.
pub struct Context {
    pub client: reqwest::Client,
    pub endpoint: String,
}

impl Context {
    /// Join a path onto the configured endpoint.
    pub fn url(&self, path: &str) -> (url: String)
        ensures
            url@ == joined_url(self.endpoint@, path@),
    {
        let base = trim_trailing_slashes(self.endpoint.as_str());
        let rest = trim_leading_slashes(path);
        let mut url = String::from_str(base);
        proof {
            reveal_strlit("/");
        }
        url.append("/");
        url.append(rest);
        url
    }
}

/// Why a runner could not be set up.
pub enum RunnerError {
    /// The HTTP client could not be built.
    HttpClient(reqwest::Error),
}

/// Drives a set of checks against one endpoint.
pub struct Runner {
    ctx: Context,
}

impl Runner {
    /// The context that the checks of this runner receive.
    pub closed spec fn context_of(&self) -> Context {
        self.ctx
    }

    /// A runner for `endpoint` around the outcome of building a client: the
    /// client when there is one, else the build error.
    pub fn from_client(client: Result<reqwest::Client, reqwest::Error>, endpoint: &str) -> (runner:
        Result<Runner, RunnerError>)
        ensures
            match client {
                Ok(c) => runner matches Ok(r) && r.context_of().client == c
                    && r.context_of().endpoint@ == endpoint@,
                Err(e) => runner matches Err(RunnerError::HttpClient(f)) && f == e,
            },
    {
        match client {
            Ok(client) => Ok(Runner { ctx: Context { client, endpoint: String::from_str(endpoint) } }),
            Err(e) => Err(RunnerError::HttpClient(e)),
        }
    }

    /// A runner for `endpoint` with a freshly built HTTP client; fails when the
    /// client cannot be built.
    pub fn new(endpoint: &str) -> (runner: Result<Runner, RunnerError>)
        ensures
            runner matches Ok(r) ==> r.context_of().endpoint@ == endpoint@,
    {
        let client = build_client(client_builder());
        Runner::from_client(client, endpoint)
    }

    /// The context that the checks of this runner receive.
    pub fn context(&self) -> (ctx: &Context)
        ensures
            *ctx == self.context_of(),
    {
        &self.ctx
    }
}

/// The result of a single check.
pub struct Outcome {
    pub name: &'static str,
    pub error: Option<String>,
}

impl Outcome {
    /// A check passed when it reported no error.
    pub fn passed(&self) -> (passed: bool)
        ensures
            passed == (self.error is None),
    {
        self.error.is_none()
    }
}

/// How many of `outcomes` passed.
pub open spec fn passed_count(outcomes: Seq<Outcome>) -> nat
    decreases outcomes.len(),
{
    if outcomes.len() == 0 {
        0
    } else {
        passed_count(outcomes.drop_last()) + if outcomes.last().error is None {
            1nat
        } else {
            0nat
        }
    }
}

/// Whether every one of `outcomes` passed.
pub open spec fn every_passed(outcomes: Seq<Outcome>) -> bool {
    forall|i: int| 0 <= i < outcomes.len() ==> #[trigger] outcomes[i].error is None
}

/// No more checks pass than were run, and all of them passed exactly when the
/// count of passed checks is the count of checks.
pub proof fn lemma_all_passed_iff_count(outcomes: Seq<Outcome>)
    ensures
        passed_count(outcomes) <= outcomes.len(),
        every_passed(outcomes) <==> passed_count(outcomes) == outcomes.len(),
    decreases outcomes.len(),
{
    if outcomes.len() > 0 {
        let init = outcomes.drop_last();
        lemma_all_passed_iff_count(init);
        if every_passed(outcomes) {
            assert forall|i: int| 0 <= i < init.len() implies #[trigger] init[i].error is None by {
                assert(init[i] == outcomes[i]);
            }
            assert(outcomes[outcomes.len() - 1].error is None);
        }
        if passed_count(outcomes) == outcomes.len() {
            assert forall|i: int| 0 <= i < outcomes.len() implies #[trigger] outcomes[i].error is None by {
                if i < init.len() {
                    assert(init[i] == outcomes[i]);
                }
            }
        }
    }
}

/// The outcome that a check named `name` leaves: its error text when it
/// failed, none when it succeeded.
pub open spec fn outcome_of(name: &'static str, result: Result<(), String>) -> Outcome {
    Outcome {
        name,
        error: match result {
            Ok(_) => None,
            Err(e) => Some(e),
        },
    }
}

/// After one more outcome, all passed exactly when all passed before and this
/// one passed too.
pub proof fn lemma_every_passed_push(outcomes: Seq<Outcome>, outcome: Outcome)
    ensures
        every_passed(outcomes.push(outcome)) <==> every_passed(outcomes) && outcome.error is None,
{
    let s = outcomes.push(outcome);
    if every_passed(s) {
        assert forall|i: int| 0 <= i < outcomes.len() implies #[trigger] outcomes[i].error is None by {
            assert(s[i] == outcomes[i]);
        }
        assert(s[outcomes.len() as int] == outcome);
    }
    if every_passed(outcomes) && outcome.error is None {
        assert forall|i: int| 0 <= i < s.len() implies #[trigger] s[i].error is None by {
            if i < outcomes.len() {
                assert(s[i] == outcomes[i]);
            }
        }
    }
}

/// The passed count goes up by one for each outcome without an error and
/// stays for each with one, whatever came before: it is the number of
/// outcomes whose error is none.
pub proof fn lemma_passed_count_counts_each(outcomes: Seq<Outcome>, outcome: Outcome)
    ensures
        passed_count(Seq::<Outcome>::empty()) == 0,
        outcome.error is None ==> passed_count(outcomes.push(outcome)) == passed_count(outcomes) + 1,
        outcome.error is Some ==> passed_count(outcomes.push(outcome)) == passed_count(outcomes),
        passed_count(outcomes) == outcomes.filter(|o: Outcome| o.error is None).len(),
    decreases outcomes.len(),
{
    assert(outcomes.push(outcome).drop_last() =~= outcomes);
    reveal(Seq::filter);
    if outcomes.len() > 0 {
        lemma_passed_count_counts_each(outcomes.drop_last(), outcomes.last());
    }
}

/// The printed lines for one outcome.
pub open spec fn outcome_text(outcome: Outcome) -> Seq<char> {
    match outcome.error {
        None => "PASS  "@ + outcome.name@ + "\n"@,
        Some(err) => "FAIL  "@ + outcome.name@ + "\n      "@ + err@ + "\n"@,
    }
}

/// The printed lines for all `outcomes`, in order.
pub open spec fn outcomes_text(outcomes: Seq<Outcome>) -> Seq<char>
    decreases outcomes.len(),
{
    if outcomes.len() == 0 {
        Seq::empty()
    } else {
        outcomes_text(outcomes.drop_last()) + outcome_text(outcomes.last())
    }
}

/// The printed lines are those of each outcome in order: a failed check is
/// printed as `FAIL  ` with its name and its error, a passed one as `PASS  `
/// with its name.
pub proof fn lemma_outcome_lines(outcomes: Seq<Outcome>, outcome: Outcome)
    ensures
        outcomes_text(Seq::<Outcome>::empty()) == Seq::<char>::empty(),
        outcomes_text(outcomes.push(outcome)) == outcomes_text(outcomes) + outcome_text(outcome),
        outcome.error is None ==> outcome_text(outcome) == "PASS  "@ + outcome.name@ + "\n"@,
        outcome.error matches Some(e) ==> outcome_text(outcome) == "FAIL  "@ + outcome.name@
            + "\n      "@ + e@ + "\n"@,
        outcome.error matches Some(e) ==> outcome_text(outcome).take(6) == "FAIL  "@
            && outcome_text(outcome).subrange(outcome.name@.len() as int + 13, outcome.name@.len() as int + 13
            + e@.len()) == e@,
        outcome.error is None ==> outcome_text(outcome).take(6) == "PASS  "@,
{
    assert(outcomes.push(outcome).drop_last() =~= outcomes);
    reveal_strlit("PASS  ");
    reveal_strlit("FAIL  ");
    reveal_strlit("\n");
    reveal_strlit("\n      ");
    let t = outcome_text(outcome);
    match outcome.error {
        Some(e) => {
            assert(t.take(6) =~= "FAIL  "@);
            assert(t.subrange(outcome.name@.len() as int + 13, outcome.name@.len() as int + 13 + e@.len()) =~= e@);
        },
        None => {
            assert(t.take(6) =~= "PASS  "@);
        },
    }
}

/// The whole printed report: one entry per check, then a blank line and the total.
pub open spec fn report_text(outcomes: Seq<Outcome>) -> Seq<char> {
    outcomes_text(outcomes) + "\n"@ + decimal(passed_count(outcomes)) + "/"@ + decimal(
        outcomes.len(),
    ) + " checks passed\n"@
}

/// The report's last line reads `n/n checks passed`, with `n` the number of
/// checks, exactly when every check passed.
pub proof fn lemma_last_line_shows_all_passed(outcomes: Seq<Outcome>)
    ensures
        every_passed(outcomes) <==> report_text(outcomes) == outcomes_text(outcomes) + "\n"@
            + decimal(outcomes.len()) + "/"@ + decimal(outcomes.len()) + " checks passed\n"@,
{
    lemma_all_passed_iff_count(outcomes);
    let n = outcomes.len();
    let p = passed_count(outcomes);
    let pre = outcomes_text(outcomes) + "\n"@;
    let tail = " checks passed\n"@;
    let full = outcomes_text(outcomes) + "\n"@ + decimal(n) + "/"@ + decimal(n) + tail;
    if report_text(outcomes) == full {
        reveal_strlit("/");
        let got = report_text(outcomes);
        assert(got =~= pre + (decimal(p) + seq!['/'] + (decimal(n) + tail)));
        assert(full =~= pre + (decimal(n) + seq!['/'] + (decimal(n) + tail)));
        assert(got.skip(pre.len() as int) =~= decimal(p) + seq!['/'] + (decimal(n) + tail));
        assert(full.skip(pre.len() as int) =~= decimal(n) + seq!['/'] + (decimal(n) + tail));
        lemma_decimal_digits(p);
        lemma_decimal_digits(n);
        lemma_split_at_first_slash(decimal(p), decimal(n) + tail, decimal(n), decimal(n) + tail);
        lemma_decimal_injective(p, n);
    }
}

/// The aggregate result of a run.
pub struct Report {
    pub outcomes: Vec<Outcome>,
}

impl Report {
    /// Records the result of the check named `name` as its outcome, after those
    /// of the checks run before it; a failure is recorded, not passed on.
    pub fn record(&mut self, name: &'static str, result: Result<(), String>)
        ensures
            final(self).outcomes@ == old(self).outcomes@.push(outcome_of(name, result)),
    {
        let error = match result {
            Ok(_) => None,
            Err(e) => Some(e),
        };
        self.outcomes.push(Outcome { name, error });
    }

    /// Whether every check passed.
    pub fn all_passed(&self) -> (all: bool)
        ensures
            all == every_passed(self.outcomes@),
    {
        let n = self.outcomes.len();
        let mut i: usize = 0;
        while i < n
            invariant
                n == self.outcomes@.len(),
                i <= n,
                forall|j: int| 0 <= j < i ==> #[trigger] self.outcomes@[j].error is None,
            decreases n - i,
        {
            if !self.outcomes[i].passed() {
                return false;
            }
            i = i + 1;
        }
        true
    }

    /// How many checks passed.
    pub fn passed_count(&self) -> (count: usize)
        ensures
            count == passed_count(self.outcomes@),
    {
        let n = self.outcomes.len();
        let mut count: usize = 0;
        let mut i: usize = 0;
        while i < n
            invariant
                n == self.outcomes@.len(),
                i <= n,
                count <= i,
                count == passed_count(self.outcomes@.take(i as int)),
            decreases n - i,
        {
            assert(self.outcomes@.take(i + 1).drop_last() =~= self.outcomes@.take(i as int));
            if self.outcomes[i].passed() {
                count = count + 1;
            }
            i = i + 1;
        }
        assert(self.outcomes@.take(n as int) =~= self.outcomes@);
        count
    }

    /// The one-line-per-check summary plus a total, exactly as it is printed.
    pub fn render(&self) -> (text: String)
        ensures
            text@ == report_text(self.outcomes@),
    {
        let n = self.outcomes.len();
        let mut text = String::new();
        let mut i: usize = 0;
        while i < n
            invariant
                n == self.outcomes@.len(),
                i <= n,
                text@ == outcomes_text(self.outcomes@.take(i as int)),
            decreases n - i,
        {
            assert(self.outcomes@.take(i + 1).drop_last() =~= self.outcomes@.take(i as int));
            let outcome = &self.outcomes[i];
            match &outcome.error {
                None => {
                    text.append("PASS  ");
                    text.append(outcome.name);
                    text.append("\n");
                },
                Some(err) => {
                    text.append("FAIL  ");
                    text.append(outcome.name);
                    text.append("\n      ");
                    text.append(err.as_str());
                    text.append("\n");
                },
            }
            i = i + 1;
        }
        assert(self.outcomes@.take(n as int) =~= self.outcomes@);
        let passed = self.passed_count();
        text.append("\n");
        push_decimal(&mut text, passed);
        text.append("/");
        push_decimal(&mut text, n);
        text.append(" checks passed\n");
        text
    }
}

} // verus!
