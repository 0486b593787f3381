use vstd::prelude::*;
use vstd::string::StringExecFns;

verus! {

/// The status bucket a selection run draws from.
#[derive(Clone, Copy, PartialEq, Eq, Structural)]
pub enum Column {
    Todo,
    InProgress,
    Done,
}

/// The remote status name each column filters on. The to-do bucket has no
/// remote counterpart wired up, so queries never ask for it.
pub open spec fn column_status(c: Column) -> Seq<char> {
    match c {
        Column::Todo => Seq::<char>::empty(),
        Column::InProgress => "In Progress"@,
        Column::Done => "Done"@,
    }
}

/// Which column a run draws from, given the two mutually exclusive
/// selection flags; with neither flag the in-progress column is meant.
pub fn column_from_flags(todo: bool, done: bool) -> (c: Column)
    ensures
        todo ==> c is Todo,
        !todo && done ==> c is Done,
        !todo && !done ==> c is InProgress,
{
    if todo {
        Column::Todo
    } else if done {
        Column::Done
    } else {
        Column::InProgress
    }
}

/// The configured query clauses: field/value pairs, kept in configuration
/// order so that the rendered query is reproducible.
pub struct Jql(pub Vec<(String, String)>);

/// One rendered query clause: `field="value"`.
pub open spec fn clause_str(field: Seq<char>, value: Seq<char>) -> Seq<char> {
    field + "=\""@ + value + "\""@
}

/// The full query: every configured clause in order, then the status
/// clause, joined by ` and `.
pub open spec fn jql_string(pairs: Seq<(String, String)>, status: Seq<char>) -> Seq<char>
    decreases pairs.len(),
{
    if pairs.len() == 0 {
        clause_str("status"@, status)
    } else {
        clause_str(pairs[0].0@, pairs[0].1@) + " and "@ + jql_string(pairs.drop_first(), status)
    }
}

impl Jql {
    /// Renders the query string sent to the tracker.
    pub fn to_query(&self, column: Column) -> (r: String)
        requires
            !(column is Todo),
        ensures
            r@ == jql_string(self.0@, column_status(column)),
    {
        let status: &str = match column {
            Column::InProgress => "In Progress",
            Column::Done => "Done",
            Column::Todo => "",
        };
        let pairs = &self.0;
        let n = pairs.len();
        let mut r = String::new();
        let mut i: usize = 0;
        proof {
            assert(pairs@.skip(0) =~= pairs@);
            assert(r@ + jql_string(pairs@, status@) =~= jql_string(pairs@, status@));
        }
        while i < n
            invariant
                i <= n,
                n == pairs@.len(),
                status@ == column_status(column),
                jql_string(pairs@, status@) == r@ + jql_string(
                    pairs@.skip(i as int),
                    status@,
                ),
            decreases n - i,
        {
            let pair = &pairs[i];
            r.append(pair.0.as_str());
            r.append("=\"");
            r.append(pair.1.as_str());
            r.append("\"");
            r.append(" and ");
            proof {
                assert(pairs@.skip(i as int).drop_first() =~= pairs@.skip(i as int + 1));
                assert(pairs@.skip(i as int)[0] == pairs@[i as int]);
            }
            i = i + 1;
        }
        proof {
            assert(pairs@.skip(n as int).len() == 0);
        }
        r.append("status");
        r.append("=\"");
        r.append(status);
        r.append("\"");
        r
    }
}

/// How a source authenticates: a user/secret pair sent as a Basic
/// credential, or an opaque token sent as-is.
pub enum Auth {
    Basic { user: String, personal_access_token: String },
    Token { token: String },
}

/// What `base64::encode` returns on the UTF-8 bytes of a string: a value
/// determined by the characters alone.
pub uninterp spec fn base64_of(s: Seq<char>) -> Seq<char>;

/// Relies on `base64::encode` (standard alphabet, with padding): the
/// encoding is a pure function of the input bytes.
#[verifier::external_body]
fn base64_encode(s: &str) -> (r: String)
    ensures
        r@ == base64_of(s@),
{
    base64::encode(s)
}

/// The value of the `Authorization` header for a credential.
pub open spec fn auth_header_spec(a: Auth) -> Seq<char> {
    match a {
        Auth::Basic { user, personal_access_token } => "Basic "@ + base64_of(
            user@ + ":"@ + personal_access_token@,
        ),
        Auth::Token { token } => "Token "@ + token@,
    }
}

impl Auth {
    /// Builds the `Authorization` header value this credential sends.
    pub fn header_value(&self) -> (r: String)
        ensures
            r@ == auth_header_spec(*self),
    {
        match self {
            Auth::Basic { user, personal_access_token } => {
                let mut cred = user.clone();
                cred.append(":");
                cred.append(personal_access_token.as_str());
                let encoded = base64_encode(cred.as_str());
                let mut r = String::from_str("Basic ");
                r.append(encoded.as_str());
                r
            },
            Auth::Token { token } => {
                let mut r = String::from_str("Token ");
                r.append(token.as_str());
                r
            },
        }
    }
}

/// Why one source's fetch failed. Failures are absorbed by the
/// aggregator: they never abort the run.
#[derive(Clone, Copy, Debug, PartialEq, Eq, Structural)]
pub enum FetchError {
    /// The request could not be sent or no response came back.
    Transport,
    /// The response carried a non-success HTTP status.
    Status(u16),
    /// The response body was not the expected JSON shape.
    Decode,
}

/// One configured source: where to ask, how to authenticate, what to ask.
pub struct JiraConfig {
    pub base_url: String,
    pub auth: Auth,
    pub query: Jql,
}

/// The cap on items asked of one source in one call.
pub const MAX_RESULTS: u32 = 50;

/// Everything one outbound call needs, precomputed.
pub struct RequestParts {
    /// The endpoint asked, as configured.
    pub url: String,
    /// The rendered query.
    pub jql: String,
    /// The value of the `Authorization` header.
    pub auth_header: String,
    /// The cap on returned items.
    pub max_results: u32,
}

impl JiraConfig {
    /// Assembles the one outbound request a run makes for this source:
    /// GET on `base_url`, filtering on `column`, with this source's
    /// credential in the `Authorization` header.
    pub fn request_parts(&self, column: Column) -> (r: RequestParts)
        requires
            !(column is Todo),
        ensures
            r.url@ == self.base_url@,
            r.jql@ == jql_string(self.query.0@, column_status(column)),
            r.auth_header@ == auth_header_spec(self.auth),
            r.max_results == MAX_RESULTS,
    {
        RequestParts {
            url: self.base_url.clone(),
            jql: self.query.to_query(column),
            auth_header: self.auth.header_value(),
            max_results: MAX_RESULTS,
        }
    }
}

impl Default for JiraConfig {
    /// The placeholder configuration written when none exists yet.
    fn default() -> (d: Self)
        ensures
            d.base_url@ == "https://path.to.your.jira.com"@,
            (d.auth matches Auth::Basic { user, personal_access_token } && user@
                == "your user"@ && personal_access_token@ == "your access token"@),
            d.query.0@.len() == 0,
    {
        JiraConfig {
            base_url: String::from_str("https://path.to.your.jira.com"),
            auth: Auth::Basic {
                user: String::from_str("your user"),
                personal_access_token: String::from_str("your access token"),
            },
            query: Jql(Vec::new()),
        }
    }
}

} // verus!
