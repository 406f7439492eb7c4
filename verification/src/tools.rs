//! The registered tools and their capability contract.
//!
//! Every tool exposes a stable name the model selects it by, a description,
//! a structural argument schema, and an invocation that either answers an
//! output or a typed failure. The tools here answer fixed data, except the
//! text reverser, which really computes; their value to the core is the
//! contract, not the business logic.

use vstd::prelude::*;
use vstd::string::*;
use crate::codec::{parse_body, parse_tail, push_char, starts_with};

verus! {

/// What the orchestration core exposes to the model backend for capability
/// discovery: one entry per registered tool.
#[derive(Debug, Clone)]
pub struct ToolDefinition {
    pub name: String,
    pub description: String,
    pub parameters: String,
}

/// The mathematical value of a tool definition.
#[verifier::ext_equal]
pub ghost struct ToolDefView {
    pub name: Seq<char>,
    pub description: Seq<char>,
    pub parameters: Seq<char>,
}

impl View for ToolDefinition {
    type V = ToolDefView;

    open spec fn view(&self) -> ToolDefView {
        ToolDefView { name: self.name@, description: self.description@, parameters: self.parameters@ }
    }
}

impl DeepView for ToolDefinition {
    type V = ToolDefView;

    open spec fn deep_view(&self) -> ToolDefView {
        self.view()
    }
}

/// The fixed record the cost lookup answers, as it is fed to the model.
pub open spec fn cost_output() -> Seq<char> {
    "{\"price\":150.5,\"currency\":\"USD\",\"in_stock\":true}"@
}

/// The fixed record the geocoder answers, as it is fed to the model.
pub open spec fn geo_output() -> Seq<char> {
    "{\"lat\":19.4326,\"lng\":-99.1332,\"zip_code\":\"06000\"}"@
}

/// A single string argument carried as canonical object text,
/// `{"<field>":"<escaped value>"}`. Answers the value exactly when the
/// text is canonical for this field.
pub open spec fn parse_string_arg(s: Seq<char>, field: Seq<char>) -> Option<Seq<char>> {
    let p = "{\""@ + field + "\":\""@;
    if starts_with(s, p) {
        parse_body(s.skip(p.len() as int))
    } else {
        None
    }
}

/// Parse one string field out of canonical argument text. `pat` must spell
/// the opening of the object for this field.
fn parse_string_field(s: &str, field: &str, pat: &str) -> (r: Option<String>)
    requires
        pat@ == "{\""@ + field@ + "\":\""@,
    ensures
        r is Some <==> parse_string_arg(s@, field@) is Some,
        r is Some ==> r.unwrap()@ == parse_string_arg(s@, field@).unwrap(),
{
    if !crate::codec::match_prefix(s, pat) {
        return None;
    }
    let k = pat.unicode_len();
    parse_tail(s, k)
}

/// Arguments of the cost lookup tool.
#[derive(Debug, Clone)]
pub struct CostArgs {
    pub item_name: String,
}

/// Typed failure of the cost lookup tool.
#[derive(Debug, Clone, Copy, PartialEq, Eq, Structural)]
pub struct CostError;

impl CostError {
    /// The failure rendered for humans.
    pub fn message(&self) -> (r: &'static str)
        ensures
            r@ == "Error db"@,
    {
        "Error db"
    }
}

/// A price lookup with a fixed answer; stands in for a real database.
pub struct CostDatabase;

impl CostDatabase {
    /// The stable name the model selects this tool by.
    pub fn name(&self) -> (r: &'static str)
        ensures
            r@ == "cost_database"@,
    {
        "cost_database"
    }

    pub fn definition(&self) -> (r: ToolDefinition)
        ensures
            r@.name == "cost_database"@,
            r@.description
                == "Consulta una base de datos de precios para estimar costos de reparaci\u{f3}n."@,
            r@.parameters
                == "{\"type\":\"object\",\"properties\":{\"item_name\":{\"type\":\"string\"}},\"required\":[\"item_name\"]}"@,
    {
        ToolDefinition {
            name: String::from_str("cost_database"),
            description: String::from_str(
                "Consulta una base de datos de precios para estimar costos de reparaci\u{f3}n.",
            ),
            parameters: String::from_str(
                "{\"type\":\"object\",\"properties\":{\"item_name\":{\"type\":\"string\"}},\"required\":[\"item_name\"]}",
            ),
        }
    }

    /// Answer the fixed price record, serialized as it is fed back to the
    /// model.
    pub fn call(&self, _args: CostArgs) -> (r: Result<String, CostError>)
        ensures
            r is Ok,
            r.unwrap()@ == cost_output(),
    {
        Ok(String::from_str("{\"price\":150.5,\"currency\":\"USD\",\"in_stock\":true}"))
    }
}

/// Arguments of the geocoding tool.
#[derive(Debug, Clone)]
pub struct GeoArgs {
    pub address: String,
}

/// Typed failure of the geocoding tool.
#[derive(Debug, Clone, Copy, PartialEq, Eq, Structural)]
pub struct GeoError;

impl GeoError {
    /// The failure rendered for humans.
    pub fn message(&self) -> (r: &'static str)
        ensures
            r@ == "Error geocoding"@,
    {
        "Error geocoding"
    }
}

/// A geocoder with a fixed answer; stands in for a real service.
pub struct GeoCoding;

impl GeoCoding {
    /// The stable name the model selects this tool by.
    pub fn name(&self) -> (r: &'static str)
        ensures
            r@ == "geocoding_service"@,
    {
        "geocoding_service"
    }

    pub fn definition(&self) -> (r: ToolDefinition)
        ensures
            r@.name == "geocoding_service"@,
            r@.description
                == "Obtiene coordenadas y c\u{f3}digo postal simulados para una direcci\u{f3}n."@,
            r@.parameters
                == "{\"type\":\"object\",\"properties\":{\"address\":{\"type\":\"string\"}},\"required\":[\"address\"]}"@,
    {
        ToolDefinition {
            name: String::from_str("geocoding_service"),
            description: String::from_str(
                "Obtiene coordenadas y c\u{f3}digo postal simulados para una direcci\u{f3}n.",
            ),
            parameters: String::from_str(
                "{\"type\":\"object\",\"properties\":{\"address\":{\"type\":\"string\"}},\"required\":[\"address\"]}",
            ),
        }
    }

    /// Answer the fixed coordinates record, serialized as it is fed back
    /// to the model.
    pub fn call(&self, _args: GeoArgs) -> (r: Result<String, GeoError>)
        ensures
            r is Ok,
            r.unwrap()@ == geo_output(),
    {
        Ok(String::from_str("{\"lat\":19.4326,\"lng\":-99.1332,\"zip_code\":\"06000\"}"))
    }
}

/// Arguments of the text reverser tool.
#[derive(Debug, Clone)]
pub struct ReverserArgs {
    pub text: String,
}

/// Typed failure of the text reverser tool.
#[derive(Debug, Clone, Copy, PartialEq, Eq, Structural)]
pub struct ReverserError;

impl ReverserError {
    /// The failure rendered for humans.
    pub fn message(&self) -> (r: &'static str)
        ensures
            r@ == "Error reversing"@,
    {
        "Error reversing"
    }
}

/// Reverses a text, character by character.
pub struct TextReverser;

impl TextReverser {
    /// The stable name the model selects this tool by.
    pub fn name(&self) -> (r: &'static str)
        ensures
            r@ == "text_reverser"@,
    {
        "text_reverser"
    }

    pub fn definition(&self) -> (r: ToolDefinition)
        ensures
            r@.name == "text_reverser"@,
            r@.description
                == "Invierte una cadena de texto. \u{da}til para demostrar manipulaci\u{f3}n de strings."@,
            r@.parameters
                == "{\"type\":\"object\",\"properties\":{\"text\":{\"type\":\"string\"}},\"required\":[\"text\"]}"@,
    {
        ToolDefinition {
            name: String::from_str("text_reverser"),
            description: String::from_str(
                "Invierte una cadena de texto. \u{da}til para demostrar manipulaci\u{f3}n de strings.",
            ),
            parameters: String::from_str(
                "{\"type\":\"object\",\"properties\":{\"text\":{\"type\":\"string\"}},\"required\":[\"text\"]}",
            ),
        }
    }

    /// Answer the text reversed.
    pub fn call(&self, args: ReverserArgs) -> (r: Result<String, ReverserError>)
        ensures
            r is Ok,
            r.unwrap()@ == args.text@.reverse(),
    {
        let s = args.text.as_str();
        let n = s.unicode_len();
        let mut out = String::new();
        let mut i: usize = 0;
        while i < n
            invariant
                i <= n,
                n == s@.len(),
                out@.len() == i,
                forall|j: int| 0 <= j < i ==> out@[j] == s@[n - 1 - j],
            decreases n - i,
        {
            let c = s.get_char(n - 1 - i);
            push_char(&mut out, c);
            i += 1;
        }
        proof {
            assert(out@ =~= s@.reverse());
        }
        Ok(out)
    }
}

/// Parse the arguments of the cost lookup tool from canonical text.
pub fn parse_cost_args(args: &str) -> (r: Option<CostArgs>)
    ensures
        r is Some <==> parse_string_arg(args@, "item_name"@) is Some,
        r is Some ==> r.unwrap().item_name@ == parse_string_arg(args@, "item_name"@).unwrap(),
{
    proof {
        reveal_strlit("{\"");
        reveal_strlit("item_name");
        reveal_strlit("\":\"");
        reveal_strlit("{\"item_name\":\"");
        assert("{\"item_name\":\""@ =~= "{\""@ + "item_name"@ + "\":\""@);
    }
    match parse_string_field(args, "item_name", "{\"item_name\":\"") {
        Some(v) => Some(CostArgs { item_name: v }),
        None => None,
    }
}

/// Parse the arguments of the geocoding tool from canonical text.
pub fn parse_geo_args(args: &str) -> (r: Option<GeoArgs>)
    ensures
        r is Some <==> parse_string_arg(args@, "address"@) is Some,
        r is Some ==> r.unwrap().address@ == parse_string_arg(args@, "address"@).unwrap(),
{
    proof {
        reveal_strlit("{\"");
        reveal_strlit("address");
        reveal_strlit("\":\"");
        reveal_strlit("{\"address\":\"");
        assert("{\"address\":\""@ =~= "{\""@ + "address"@ + "\":\""@);
    }
    match parse_string_field(args, "address", "{\"address\":\"") {
        Some(v) => Some(GeoArgs { address: v }),
        None => None,
    }
}

/// Parse the arguments of the text reverser tool from canonical text.
pub fn parse_reverser_args(args: &str) -> (r: Option<ReverserArgs>)
    ensures
        r is Some <==> parse_string_arg(args@, "text"@) is Some,
        r is Some ==> r.unwrap().text@ == parse_string_arg(args@, "text"@).unwrap(),
{
    proof {
        reveal_strlit("{\"");
        reveal_strlit("text");
        reveal_strlit("\":\"");
        reveal_strlit("{\"text\":\"");
        assert("{\"text\":\""@ =~= "{\""@ + "text"@ + "\":\""@);
    }
    match parse_string_field(args, "text", "{\"text\":\"") {
        Some(v) => Some(ReverserArgs { text: v }),
        None => None,
    }
}

} // verus!
