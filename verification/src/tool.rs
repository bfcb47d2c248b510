//! What a tool is to a model: a name, a description and the shape of its arguments.

use crate::json::Json;
use crate::text::{push_char, uppercase, uppercase_of};
use crate::types::{ArgumentType, ArgumentTypeView};
use vstd::prelude::*;
use vstd::string::StringExecFns;

verus! {

/// A type that describes itself as the argument of a tool.
pub trait ToolArg {
    /// The JSON Schema of the type.
    fn schema() -> Json;
}

/// A type that describes itself as the shape of a model's structured answer.
pub trait StructuredOutput {
    /// The JSON Schema of the type.
    fn schema() -> Json;
}

/// What the character at `i` of a snake_case name adds to its PascalCase form: nothing
/// if it is an underscore, its upper case if it begins a word, else itself.
pub open spec fn pascal_piece(s: Seq<char>, i: int) -> Seq<char> {
    if s[i] == '_' {
        Seq::empty()
    } else if i == 0 || s[i - 1] == '_' {
        uppercase(s[i])
    } else {
        seq![s[i]]
    }
}

/// The PascalCase form of the first `n` characters of a snake_case name.
pub open spec fn pascal_prefix(s: Seq<char>, n: nat) -> Seq<char>
    decreases n,
{
    if n == 0 {
        Seq::empty()
    } else {
        pascal_prefix(s, (n - 1) as nat) + pascal_piece(s, n - 1)
    }
}

/// The PascalCase form of a snake_case name: the words between its underscores, each with
/// its first character in upper case, one after the other.
pub open spec fn pascal_case(s: Seq<char>) -> Seq<char> {
    pascal_prefix(s, s.len())
}

/// Converts snake_case to PascalCase.
pub fn to_pascal_case(s: &str) -> (r: String)
    ensures
        r@ == pascal_case(s@),
{
    let mut r = String::new();
    let mut starts_word = true;
    for c in it: s.chars()
        invariant
            it.seq() == s@,
            r@ == pascal_prefix(s@, it.index() as nat),
            starts_word == (it.index() == 0 || s@[it.index() - 1] == '_'),
    {
        let ghost i = it.index() as int;
        if c == '_' {
            starts_word = true;
            assert(r@ + pascal_piece(s@, i) =~= r@);
        } else if starts_word {
            let upper = uppercase_of(c);
            r.append(upper.as_str());
            starts_word = false;
        } else {
            push_char(&mut r, c);
            assert(r@ =~= pascal_prefix(s@, i as nat) + pascal_piece(s@, i));
        }
    }
    r
}

/// The model of a [`ToolDefinition`].
pub struct ToolDefinitionView {
    pub name: Seq<char>,
    pub struct_name: Seq<char>,
    pub description: Seq<char>,
    pub parameters: ArgumentTypeView,
}

/// A tool as it is declared: the function's name, the name of the type that stands for
/// it, what it does in words, and the type of its one argument.
#[derive(Debug, PartialEq, Eq)]
pub struct ToolDefinition {
    pub name: String,
    pub struct_name: String,
    pub description: String,
    pub parameters: ArgumentType,
}

impl View for ToolDefinition {
    type V = ToolDefinitionView;

    open spec fn view(&self) -> ToolDefinitionView {
        ToolDefinitionView {
            name: self.name@,
            struct_name: self.struct_name@,
            description: self.description@,
            parameters: self.parameters@,
        }
    }
}

/// The models of a list of tools.
pub open spec fn tool_views(tools: Seq<ToolDefinition>) -> Seq<ToolDefinitionView> {
    tools.map_values(|t: ToolDefinition| t@)
}

/// The names of the tools, in order.
pub open spec fn tool_names(tools: Seq<ToolDefinitionView>) -> Seq<Seq<char>> {
    tools.map_values(|t: ToolDefinitionView| t.name)
}

impl ToolDefinition {
    /// The tool for the function `name` that takes a `parameters`: it goes by the
    /// function's name, and its type by that name in PascalCase with `Tool` behind it.
    pub fn new(name: &str, description: &str, parameters: ArgumentType) -> (r: ToolDefinition)
        ensures
            r@ == (ToolDefinitionView {
                name: name@,
                struct_name: pascal_case(name@) + "Tool"@,
                description: description@,
                parameters: parameters@,
            }),
    {
        ToolDefinition {
            name: name.to_owned(),
            struct_name: to_pascal_case(name).concat("Tool"),
            description: description.to_owned(),
            parameters,
        }
    }
}

} // verus!
