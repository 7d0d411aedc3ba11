//! Tool descriptions as a remote tool server advertises them.
use vstd::prelude::*;

verus! {

/// One input property of a tool.
pub struct Property {
    pub key: String,
    pub description: Option<String>,
    pub property_type: Option<String>,
    pub required: bool,
}

/// A tool: its name, display name, description, and input properties (none
/// when the schema declares no property).
pub struct ToolSpec {
    pub name: String,
    pub display_name: Option<String>,
    pub description: Option<String>,
    pub input_schema: Option<Vec<Property>>,
}

/// What a tool invocation runs in.
pub struct ToolContext;

/// How to reach a tool server: a child process spoken to over stdio, or an
/// HTTP endpoint with an optional key.
pub enum TransportArgs {
    Stdio { command: String, args: Vec<String> },
    StreamableHttp { url: String, api_key: Option<String> },
}

pub struct McpClientArgs {
    pub name: String,
    pub version: String,
    pub transport: TransportArgs,
}

/// A property as a schema lists it: key, description, type.
pub struct SchemaProperty {
    pub key: String,
    pub description: Option<String>,
    pub property_type: Option<String>,
}

pub open spec fn names(v: Seq<String>, key: Seq<char>) -> bool {
    exists|i: int| 0 <= i < v.len() && #[trigger] v[i]@ == key
}

fn contains_name(v: &Vec<String>, key: &String) -> (r: bool)
    ensures
        r == names(v@, key@),
{
    let mut i: usize = 0;
    while i < v.len()
        invariant
            i <= v@.len(),
            forall|k: int| 0 <= k < i ==> v@[k]@ != key@,
        decreases v@.len() - i,
    {
        if v[i] == *key {
            return true;
        }
        i = i + 1;
    }
    false
}

impl ToolSpec {
    /// Builds a tool description from the parts of its input schema: each
    /// listed property, in order, marked required exactly when the schema's
    /// `required` list names its key.
    pub fn from_schema(
        name: String,
        display_name: Option<String>,
        description: Option<String>,
        properties: Vec<SchemaProperty>,
        required: Vec<String>,
    ) -> (r: ToolSpec)
        ensures
            r.name == name,
            r.display_name == display_name,
            r.description == description,
            properties@.len() == 0 <==> r.input_schema is None,
            r.input_schema matches Some(ps) ==> {
                &&& ps@.len() == properties@.len()
                &&& forall|i: int| 0 <= i < ps@.len() ==> {
                    &&& (#[trigger] ps@[i]).key == properties@[i].key
                    &&& ps@[i].description == properties@[i].description
                    &&& ps@[i].property_type == properties@[i].property_type
                    &&& ps@[i].required == names(required@, properties@[i].key@)
                }
            },
    {
        let ghost src = properties@;
        let n = properties.len();
        let mut out: Vec<Property> = Vec::new();
        let mut rest = properties;
        while rest.len() > 0
            invariant
                out@.len() + rest@.len() == n,
                n == src.len(),
                rest@ == src.subrange(out@.len() as int, n as int),
                forall|i: int| 0 <= i < out@.len() ==> {
                    &&& (#[trigger] out@[i]).key == src[i].key
                    &&& out@[i].description == src[i].description
                    &&& out@[i].property_type == src[i].property_type
                    &&& out@[i].required == names(required@, src[i].key@)
                },
            decreases rest@.len(),
        {
            let p = rest.remove(0);
            let req = contains_name(&required, &p.key);
            out.push(Property { key: p.key, description: p.description, property_type: p.property_type, required: req });
            assert(rest@ =~= src.subrange(out@.len() as int, n as int));
        }
        let input_schema = if out.len() == 0 {
            None
        } else {
            Some(out)
        };
        ToolSpec { name, display_name, description, input_schema }
    }
}

} // verus!
