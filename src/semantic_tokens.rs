//! The token classes used to colour an authored request body.

use vstd::prelude::*;

use crate::text::str_eq;

verus! {

#[derive(Debug, Clone, Copy, PartialEq, Eq, Structural)]
pub enum SemanticTokenType {
    AttributeIdent,
    BlockIdent,
    Bool,
    String,
    Number,
}

/// The class of a syntax node, from its kind and its parent's kind: an
/// identifier directly under a block or an attribute, or a literal.
pub open spec fn token_class(kind: Seq<char>, parent: Option<Seq<char>>) -> Option<SemanticTokenType> {
    if kind == "identifier"@ {
        match parent {
            Some(p) => if p == "block"@ {
                Some(SemanticTokenType::BlockIdent)
            } else if p == "attribute"@ {
                Some(SemanticTokenType::AttributeIdent)
            } else {
                None
            },
            None => None,
        }
    } else if kind == "string_lit"@ {
        Some(SemanticTokenType::String)
    } else if kind == "numeric_lit"@ {
        Some(SemanticTokenType::Number)
    } else if kind == "bool_lit"@ {
        Some(SemanticTokenType::Bool)
    } else {
        None
    }
}

pub open spec fn opt_str_view(o: Option<&str>) -> Option<Seq<char>> {
    match o {
        Some(s) => Some(s@),
        None => None,
    }
}

impl SemanticTokenType {
    /// The class of a syntax node (see [`token_class`]).
    pub fn from_kinds(kind: &str, parent_kind: Option<&str>) -> (r: Option<SemanticTokenType>)
        ensures
            r == token_class(kind@, opt_str_view(parent_kind)),
    {
        if str_eq(kind, "identifier") {
            match parent_kind {
                Some(p) => if str_eq(p, "block") {
                    Some(SemanticTokenType::BlockIdent)
                } else if str_eq(p, "attribute") {
                    Some(SemanticTokenType::AttributeIdent)
                } else {
                    None
                },
                None => None,
            }
        } else if str_eq(kind, "string_lit") {
            Some(SemanticTokenType::String)
        } else if str_eq(kind, "numeric_lit") {
            Some(SemanticTokenType::Number)
        } else if str_eq(kind, "bool_lit") {
            Some(SemanticTokenType::Bool)
        } else {
            None
        }
    }

    /// The name under which the class is announced to an editor.
    pub fn name(&self) -> (r: String)
        ensures
            r@ == match *self {
                SemanticTokenType::AttributeIdent => "hcl-attribute"@,
                SemanticTokenType::BlockIdent => "hcl-block"@,
                SemanticTokenType::Bool => "hcl-type-bool"@,
                SemanticTokenType::String => "hcl-type-string"@,
                SemanticTokenType::Number => "hcl-type-number"@,
            },
    {
        match self {
            SemanticTokenType::AttributeIdent => String::from_str("hcl-attribute"),
            SemanticTokenType::BlockIdent => String::from_str("hcl-block"),
            SemanticTokenType::Bool => String::from_str("hcl-type-bool"),
            SemanticTokenType::String => String::from_str("hcl-type-string"),
            SemanticTokenType::Number => String::from_str("hcl-type-number"),
        }
    }
}

/// All token classes, in the order their indices are announced.
pub fn semantic_token_types() -> (r: Vec<SemanticTokenType>)
    ensures
        r@ == seq![
            SemanticTokenType::AttributeIdent,
            SemanticTokenType::BlockIdent,
            SemanticTokenType::Bool,
            SemanticTokenType::String,
            SemanticTokenType::Number,
        ],
{
    let mut r: Vec<SemanticTokenType> = Vec::new();
    r.push(SemanticTokenType::AttributeIdent);
    r.push(SemanticTokenType::BlockIdent);
    r.push(SemanticTokenType::Bool);
    r.push(SemanticTokenType::String);
    r.push(SemanticTokenType::Number);
    assert(r@ =~= seq![
        SemanticTokenType::AttributeIdent,
        SemanticTokenType::BlockIdent,
        SemanticTokenType::Bool,
        SemanticTokenType::String,
        SemanticTokenType::Number,
    ]);
    r
}

} // verus!
