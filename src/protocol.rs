use vstd::prelude::*;

verus! {

/// How many hits a `search_context` call asks the store for.
pub const SEARCH_LIMIT: usize = 5;

/// The fields of a `tools/call` request's `params` that the dispatcher reads:
/// `params.name` and `params.arguments.{query, text, metadata}`, each `None`
/// where absent or not a string.
pub struct CallParams {
    pub name: Option<String>,
    pub query: Option<String>,
    pub text: Option<String>,
    pub metadata: Option<String>,
}

pub struct CallParamsView {
    pub name: Option<Seq<char>>,
    pub query: Option<Seq<char>>,
    pub text: Option<Seq<char>>,
    pub metadata: Option<Seq<char>>,
}

pub open spec fn opt_view(o: Option<String>) -> Option<Seq<char>> {
    match o {
        Some(s) => Some(s@),
        None => None,
    }
}

impl View for CallParams {
    type V = CallParamsView;

    open spec fn view(&self) -> CallParamsView {
        CallParamsView {
            name: opt_view(self.name),
            query: opt_view(self.query),
            text: opt_view(self.text),
            metadata: opt_view(self.metadata),
        }
    }
}

/// What the session does for one request.
pub enum Action {
    /// Answer with the server descriptor.
    Initialize,
    /// Answer with the tool catalog.
    ListTools,
    /// Embed `query`, then answer with the `limit` best hits.
    Search { query: String, limit: usize },
    /// Embed `text`, then store it under `id` with `metadata`.
    Add { id: String, text: String, metadata: String },
    /// Answer with an error payload; nothing is stored.
    Fail { message: String },
    /// Answer with the method name, for diagnostics.
    Echo { method: String },
}

pub enum ActionView {
    Initialize,
    ListTools,
    Search { query: Seq<char>, limit: nat },
    Add { id: Seq<char>, text: Seq<char>, metadata: Seq<char> },
    Fail { message: Seq<char> },
    Echo { method: Seq<char> },
}

impl View for Action {
    type V = ActionView;

    open spec fn view(&self) -> ActionView {
        match self {
            Action::Initialize => ActionView::Initialize,
            Action::ListTools => ActionView::ListTools,
            Action::Search { query, limit } => ActionView::Search { query: query@, limit: *limit as nat },
            Action::Add { id, text, metadata } => ActionView::Add {
                id: id@,
                text: text@,
                metadata: metadata@,
            },
            Action::Fail { message } => ActionView::Fail { message: message@ },
            Action::Echo { method } => ActionView::Echo { method: method@ },
        }
    }
}

/// The value of an optional argument, or `default` when it is absent.
pub open spec fn or_default(o: Option<Seq<char>>, default: Seq<char>) -> Seq<char> {
    match o {
        Some(s) => s,
        None => default,
    }
}

/// The action for a `tools/call` with the given parameters. Missing
/// arguments are not rejected: `name`, `query` and `text` default to the
/// empty string and `metadata` to `{}`; every stored memory gets the id
/// `manual_id`.
pub open spec fn call_action(p: Option<CallParamsView>) -> ActionView {
    match p {
        None => ActionView::Fail { message: "Missing params"@ },
        Some(p) => {
            let name = or_default(p.name, ""@);
            if name == "search_context"@ {
                ActionView::Search { query: or_default(p.query, ""@), limit: SEARCH_LIMIT as nat }
            } else if name == "add_memory"@ {
                ActionView::Add {
                    id: "manual_id"@,
                    text: or_default(p.text, ""@),
                    metadata: or_default(p.metadata, "{}"@),
                }
            } else {
                ActionView::Fail { message: "Tool not found"@ }
            }
        },
    }
}

/// The action for a request with method `method` and, for `tools/call`,
/// the parameters `p`.
pub open spec fn action_for(method: Seq<char>, p: Option<CallParamsView>) -> ActionView {
    if method == "initialize"@ {
        ActionView::Initialize
    } else if method == "tools/list"@ {
        ActionView::ListTools
    } else if method == "tools/call"@ {
        call_action(p)
    } else {
        ActionView::Echo { method }
    }
}

pub open spec fn params_view(p: Option<CallParams>) -> Option<CallParamsView> {
    match p {
        Some(p) => Some(p@),
        None => None,
    }
}

fn is_literal(s: &String, lit: &str) -> (r: bool)
    ensures
        r == (s@ == lit@),
{
    *s == lit.to_string()
}

fn value_or(o: Option<String>, default: &str) -> (r: String)
    ensures
        r@ == or_default(opt_view(o), default@),
{
    match o {
        Some(s) => s,
        None => default.to_string(),
    }
}

/// Decides what to do with one request.
pub fn dispatch(method: String, params: Option<CallParams>) -> (r: Action)
    ensures
        r@ == action_for(method@, params_view(params)),
{
    if is_literal(&method, "initialize") {
        Action::Initialize
    } else if is_literal(&method, "tools/list") {
        Action::ListTools
    } else if is_literal(&method, "tools/call") {
        match params {
            None => Action::Fail { message: "Missing params".to_string() },
            Some(p) => {
                let name = value_or(p.name, "");
                if is_literal(&name, "search_context") {
                    Action::Search { query: value_or(p.query, ""), limit: SEARCH_LIMIT }
                } else if is_literal(&name, "add_memory") {
                    Action::Add {
                        id: "manual_id".to_string(),
                        text: value_or(p.text, ""),
                        metadata: value_or(p.metadata, "{}"),
                    }
                } else {
                    Action::Fail { message: "Tool not found".to_string() }
                }
            },
        }
    } else {
        Action::Echo { method }
    }
}

} // verus!
