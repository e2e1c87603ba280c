use vstd::prelude::*;

verus! {

/// One tool offered by the server: its name, a description, the string
/// properties of its input object, and which of them are required.
pub struct ToolSpec {
    pub name: String,
    pub description: String,
    pub properties: Vec<String>,
    pub required: Vec<String>,
}

/// The views of a list of strings.
pub open spec fn strings_view(v: Seq<String>) -> Seq<Seq<char>> {
    v.map_values(|s: String| s@)
}

/// The server descriptor sent in answer to `initialize`.
pub struct ServerInfo {
    pub protocol_version: String,
    pub name: String,
    pub version: String,
}

fn strings(items: &[&str]) -> (r: Vec<String>)
    ensures
        r.len() == items@.len(),
        forall|i: int| 0 <= i < items@.len() ==> #[trigger] r@[i]@ == items@[i]@,
{
    let mut r: Vec<String> = Vec::new();
    let mut i: usize = 0;
    while i < items.len()
        invariant
            i <= items@.len(),
            r.len() == i,
            forall|k: int| 0 <= k < i ==> #[trigger] r@[k]@ == items@[k]@,
        decreases items@.len() - i,
    {
        r.push(items[i].to_string());
        i = i + 1;
    }
    r
}

/// The tools this server offers: `search_context`, whose input is a
/// required `query`, and `add_memory`, whose input is a required `text` and
/// an optional `metadata`.
pub fn tool_catalog() -> (r: Vec<ToolSpec>)
    ensures
        r.len() == 2,
        r@[0].name@ == "search_context"@,
        strings_view(r@[0].properties@) == seq!["query"@],
        strings_view(r@[0].required@) == seq!["query"@],
        r@[1].name@ == "add_memory"@,
        strings_view(r@[1].properties@) == seq!["text"@, "metadata"@],
        strings_view(r@[1].required@) == seq!["text"@],
{
    let search = ToolSpec {
        name: "search_context".to_string(),
        description: "Search the local vector database for relevant code or conversations".to_string(),
        properties: strings(&["query"]),
        required: strings(&["query"]),
    };
    let add = ToolSpec {
        name: "add_memory".to_string(),
        description: "Add a new memory to the vector database".to_string(),
        properties: strings(&["text", "metadata"]),
        required: strings(&["text"]),
    };
    assert(strings_view(search.properties@) =~= seq!["query"@]);
    assert(strings_view(search.required@) =~= seq!["query"@]);
    assert(strings_view(add.properties@) =~= seq!["text"@, "metadata"@]);
    assert(strings_view(add.required@) =~= seq!["text"@]);
    let mut r: Vec<ToolSpec> = Vec::new();
    r.push(search);
    r.push(add);
    r
}

/// The descriptor answered to `initialize`.
pub fn server_info() -> (r: ServerInfo)
    ensures
        r.protocol_version@ == "2024-11-05"@,
        r.name@ == "mcp-nexus-context"@,
        r.version@ == "0.1.0"@,
{
    ServerInfo {
        protocol_version: "2024-11-05".to_string(),
        name: "mcp-nexus-context".to_string(),
        version: "0.1.0".to_string(),
    }
}

/// The text answered once a memory is stored.
pub fn memory_added_text() -> (r: String)
    ensures
        r@ == "Memory added."@,
{
    "Memory added.".to_string()
}

} // verus!
