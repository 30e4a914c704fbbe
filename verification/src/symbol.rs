//! Symbols: the nodes of the code graph.
use vstd::prelude::*;
use crate::text::{chars_of, push_char, str_eq, string_of};

verus! {

/// A character of a qualified name after defanging: backticks (Cypher's
/// identifier delimiter) become `_`.
pub open spec fn defang_char(c: char) -> char {
    if c == '`' {
        '_'
    } else {
        c
    }
}

/// The defanged form of a raw qualified name.
pub open spec fn defang_spec(s: Seq<char>) -> Seq<char> {
    s.map_values(|c: char| defang_char(c))
}

/// A symbol's fully qualified name, e.g. `src/lib.rs::parse`.
/// Never holds a backtick.
#[derive(Debug, PartialEq, Eq, Hash)]
pub struct QualifiedName(String);

impl View for QualifiedName {
    type V = Seq<char>;

    closed spec fn view(&self) -> Seq<char> {
        self.0@
    }
}

impl QualifiedName {
    /// Builds a qualified name, replacing every backtick with `_` so the
    /// name can be interpolated into a Cypher literal downstream.
    pub fn new(s: &str) -> (q: QualifiedName)
        ensures
            q@ == defang_spec(s@),
    {
        let cs = chars_of(s);
        let mut out = String::new();
        let mut i: usize = 0;
        while i < cs.len()
            invariant
                i <= cs@.len(),
                cs@ == s@,
                out@ == defang_spec(cs@.take(i as int)),
            decreases cs@.len() - i,
        {
            let c = cs[i];
            if c == '`' {
                push_char(&mut out, '_');
            } else {
                push_char(&mut out, c);
            }
            assert(defang_spec(cs@.take(i + 1)) =~= defang_spec(cs@.take(i as int)).push(
                defang_char(c),
            ));
            i = i + 1;
        }
        assert(cs@.take(cs@.len() as int) =~= cs@);
        QualifiedName(out)
    }

    /// The name as a string slice.
    pub fn as_str(&self) -> (s: &str)
        ensures
            s@ == self@,
    {
        self.0.as_str()
    }

    /// An independent copy of the name.
    pub fn duplicate(&self) -> (q: QualifiedName)
        ensures
            q@ == self@,
    {
        QualifiedName(self.0.clone())
    }
}

/// Law: a qualified name never holds a backtick.
pub proof fn qualified_name_has_no_backtick(s: Seq<char>)
    ensures
        !defang_spec(s).contains('`'),
        defang_spec(s).len() == s.len(),
{
    if defang_spec(s).contains('`') {
        let i = choose|i: int| 0 <= i < defang_spec(s).len() && defang_spec(s)[i] == '`';
        assert(defang_spec(s)[i] == defang_char(s[i]));
    }
}

/// Law: a name without backticks is kept exactly.
pub proof fn qualified_name_keeps_clean_input(s: Seq<char>)
    requires
        !s.contains('`'),
    ensures
        defang_spec(s) == s,
{
    assert forall|i: int| 0 <= i < s.len() implies defang_spec(s)[i] == s[i] by {
        if s[i] == '`' {
            assert(s.contains('`'));
        }
    }
    assert(defang_spec(s) =~= s);
}

/// A symbol's one-line signature, e.g. `fn bar() -> u32`.
#[derive(Debug, PartialEq, Eq)]
pub struct Signature(pub String);

impl View for Signature {
    type V = Seq<char>;

    open spec fn view(&self) -> Seq<char> {
        self.0@
    }
}

impl Signature {
    /// Wraps a signature string unchanged.
    pub fn new(s: &str) -> (sig: Signature)
        ensures
            sig@ == s@,
    {
        Signature(string_of(s))
    }

    /// The signature as a string slice.
    pub fn as_str(&self) -> (s: &str)
        ensures
            s@ == self@,
    {
        self.0.as_str()
    }
}

/// The kind of a code symbol.
#[derive(Debug, Clone, Copy, PartialEq, Eq, Hash, Structural)]
pub enum SymbolKind {
    Function,
    Method,
    Class,
    Interface,
    Type,
    Component,
    Hook,
    Constant,
    Module,
    Struct,
    Enum,
    Trait,
    Impl,
    Static,
}

/// The snake_case name under which a kind is stored in the graph.
pub open spec fn symbol_kind_name(k: SymbolKind) -> Seq<char> {
    match k {
        SymbolKind::Function => "function"@,
        SymbolKind::Method => "method"@,
        SymbolKind::Class => "class"@,
        SymbolKind::Interface => "interface"@,
        SymbolKind::Type => "type"@,
        SymbolKind::Component => "component"@,
        SymbolKind::Hook => "hook"@,
        SymbolKind::Constant => "constant"@,
        SymbolKind::Module => "module"@,
        SymbolKind::Struct => "struct"@,
        SymbolKind::Enum => "enum"@,
        SymbolKind::Trait => "trait"@,
        SymbolKind::Impl => "impl"@,
        SymbolKind::Static => "static"@,
    }
}

} // verus!

verus! {

/// The kind named by a stored snake_case name, if any.
pub open spec fn symbol_kind_from_name(s: Seq<char>) -> Option<SymbolKind> {
    if s == "function"@ {
        Some(SymbolKind::Function)
    } else if s == "method"@ {
        Some(SymbolKind::Method)
    } else if s == "class"@ {
        Some(SymbolKind::Class)
    } else if s == "interface"@ {
        Some(SymbolKind::Interface)
    } else if s == "type"@ {
        Some(SymbolKind::Type)
    } else if s == "component"@ {
        Some(SymbolKind::Component)
    } else if s == "hook"@ {
        Some(SymbolKind::Hook)
    } else if s == "constant"@ {
        Some(SymbolKind::Constant)
    } else if s == "module"@ {
        Some(SymbolKind::Module)
    } else if s == "struct"@ {
        Some(SymbolKind::Struct)
    } else if s == "enum"@ {
        Some(SymbolKind::Enum)
    } else if s == "trait"@ {
        Some(SymbolKind::Trait)
    } else if s == "impl"@ {
        Some(SymbolKind::Impl)
    } else if s == "static"@ {
        Some(SymbolKind::Static)
    } else {
        None
    }
}

impl SymbolKind {
    /// The snake_case name under which this kind is stored.
    pub fn as_str(&self) -> (r: &'static str)
        ensures
            r@ == symbol_kind_name(*self),
    {
        match self {
            SymbolKind::Function => "function",
            SymbolKind::Method => "method",
            SymbolKind::Class => "class",
            SymbolKind::Interface => "interface",
            SymbolKind::Type => "type",
            SymbolKind::Component => "component",
            SymbolKind::Hook => "hook",
            SymbolKind::Constant => "constant",
            SymbolKind::Module => "module",
            SymbolKind::Struct => "struct",
            SymbolKind::Enum => "enum",
            SymbolKind::Trait => "trait",
            SymbolKind::Impl => "impl",
            SymbolKind::Static => "static",
        }
    }

    /// Decodes a stored snake_case kind name.
    pub fn from_name(s: &str) -> (r: Option<SymbolKind>)
        ensures
            r == symbol_kind_from_name(s@),
    {
        if str_eq(s, "function") {
            Some(SymbolKind::Function)
        } else if str_eq(s, "method") {
            Some(SymbolKind::Method)
        } else if str_eq(s, "class") {
            Some(SymbolKind::Class)
        } else if str_eq(s, "interface") {
            Some(SymbolKind::Interface)
        } else if str_eq(s, "type") {
            Some(SymbolKind::Type)
        } else if str_eq(s, "component") {
            Some(SymbolKind::Component)
        } else if str_eq(s, "hook") {
            Some(SymbolKind::Hook)
        } else if str_eq(s, "constant") {
            Some(SymbolKind::Constant)
        } else if str_eq(s, "module") {
            Some(SymbolKind::Module)
        } else if str_eq(s, "struct") {
            Some(SymbolKind::Struct)
        } else if str_eq(s, "enum") {
            Some(SymbolKind::Enum)
        } else if str_eq(s, "trait") {
            Some(SymbolKind::Trait)
        } else if str_eq(s, "impl") {
            Some(SymbolKind::Impl)
        } else if str_eq(s, "static") {
            Some(SymbolKind::Static)
        } else {
            None
        }
    }
}

/// Law: decoding a stored kind name gives the kind back.
pub proof fn symbol_kind_name_roundtrip(k: SymbolKind)
    ensures
        symbol_kind_from_name(symbol_kind_name(k)) == Some(k),
{
    reveal_strlit("function");
    reveal_strlit("method");
    reveal_strlit("class");
    reveal_strlit("interface");
    reveal_strlit("type");
    reveal_strlit("component");
    reveal_strlit("hook");
    reveal_strlit("constant");
    reveal_strlit("module");
    reveal_strlit("struct");
    reveal_strlit("enum");
    reveal_strlit("trait");
    reveal_strlit("impl");
    reveal_strlit("static");
    match k {
        SymbolKind::Function => {
        },
        SymbolKind::Method => {
            assert("method"@.len() != "function"@.len());
        },
        SymbolKind::Class => {
            assert("class"@.len() != "function"@.len());
            assert("class"@.len() != "method"@.len());
        },
        SymbolKind::Interface => {
            assert("interface"@.len() != "function"@.len());
            assert("interface"@.len() != "method"@.len());
            assert("interface"@.len() != "class"@.len());
        },
        SymbolKind::Type => {
            assert("type"@.len() != "function"@.len());
            assert("type"@.len() != "method"@.len());
            assert("type"@.len() != "class"@.len());
            assert("type"@.len() != "interface"@.len());
        },
        SymbolKind::Component => {
            assert("component"@.len() != "function"@.len());
            assert("component"@.len() != "method"@.len());
            assert("component"@.len() != "class"@.len());
            assert("component"@[0] != "interface"@[0]);
            assert("component"@.len() != "type"@.len());
        },
        SymbolKind::Hook => {
            assert("hook"@.len() != "function"@.len());
            assert("hook"@.len() != "method"@.len());
            assert("hook"@.len() != "class"@.len());
            assert("hook"@.len() != "interface"@.len());
            assert("hook"@[0] != "type"@[0]);
            assert("hook"@.len() != "component"@.len());
        },
        SymbolKind::Constant => {
            assert("constant"@[0] != "function"@[0]);
            assert("constant"@.len() != "method"@.len());
            assert("constant"@.len() != "class"@.len());
            assert("constant"@.len() != "interface"@.len());
            assert("constant"@.len() != "type"@.len());
            assert("constant"@.len() != "component"@.len());
            assert("constant"@.len() != "hook"@.len());
        },
        SymbolKind::Module => {
            assert("module"@.len() != "function"@.len());
            assert("module"@[1] != "method"@[1]);
            assert("module"@.len() != "class"@.len());
            assert("module"@.len() != "interface"@.len());
            assert("module"@.len() != "type"@.len());
            assert("module"@.len() != "component"@.len());
            assert("module"@.len() != "hook"@.len());
            assert("module"@.len() != "constant"@.len());
        },
        SymbolKind::Struct => {
            assert("struct"@.len() != "function"@.len());
            assert("struct"@[0] != "method"@[0]);
            assert("struct"@.len() != "class"@.len());
            assert("struct"@.len() != "interface"@.len());
            assert("struct"@.len() != "type"@.len());
            assert("struct"@.len() != "component"@.len());
            assert("struct"@.len() != "hook"@.len());
            assert("struct"@.len() != "constant"@.len());
            assert("struct"@[0] != "module"@[0]);
        },
        SymbolKind::Enum => {
            assert("enum"@.len() != "function"@.len());
            assert("enum"@.len() != "method"@.len());
            assert("enum"@.len() != "class"@.len());
            assert("enum"@.len() != "interface"@.len());
            assert("enum"@[0] != "type"@[0]);
            assert("enum"@.len() != "component"@.len());
            assert("enum"@[0] != "hook"@[0]);
            assert("enum"@.len() != "constant"@.len());
            assert("enum"@.len() != "module"@.len());
            assert("enum"@.len() != "struct"@.len());
        },
        SymbolKind::Trait => {
            assert("trait"@.len() != "function"@.len());
            assert("trait"@.len() != "method"@.len());
            assert("trait"@[0] != "class"@[0]);
            assert("trait"@.len() != "interface"@.len());
            assert("trait"@.len() != "type"@.len());
            assert("trait"@.len() != "component"@.len());
            assert("trait"@.len() != "hook"@.len());
            assert("trait"@.len() != "constant"@.len());
            assert("trait"@.len() != "module"@.len());
            assert("trait"@.len() != "struct"@.len());
            assert("trait"@.len() != "enum"@.len());
        },
        SymbolKind::Impl => {
            assert("impl"@.len() != "function"@.len());
            assert("impl"@.len() != "method"@.len());
            assert("impl"@.len() != "class"@.len());
            assert("impl"@.len() != "interface"@.len());
            assert("impl"@[0] != "type"@[0]);
            assert("impl"@.len() != "component"@.len());
            assert("impl"@[0] != "hook"@[0]);
            assert("impl"@.len() != "constant"@.len());
            assert("impl"@.len() != "module"@.len());
            assert("impl"@.len() != "struct"@.len());
            assert("impl"@[0] != "enum"@[0]);
            assert("impl"@.len() != "trait"@.len());
        },
        SymbolKind::Static => {
            assert("static"@.len() != "function"@.len());
            assert("static"@[0] != "method"@[0]);
            assert("static"@.len() != "class"@.len());
            assert("static"@.len() != "interface"@.len());
            assert("static"@.len() != "type"@.len());
            assert("static"@.len() != "component"@.len());
            assert("static"@.len() != "hook"@.len());
            assert("static"@.len() != "constant"@.len());
            assert("static"@[0] != "module"@[0]);
            assert("static"@[2] != "struct"@[2]);
            assert("static"@.len() != "enum"@.len());
            assert("static"@.len() != "trait"@.len());
            assert("static"@.len() != "impl"@.len());
        },
    }
}

} // verus!

verus! {

/// A code symbol as stored in the graph.
#[derive(Debug, PartialEq, Eq)]
pub struct Symbol {
    pub qualified_name: QualifiedName,
    pub kind: SymbolKind,
    pub file_path: String,
    pub start_line: u32,
    pub end_line: u32,
    pub signature: Signature,
    pub jsdoc: Option<String>,
    pub synthesized_description: Option<String>,
    pub exported: bool,
    /// blake3 hex of the `signature + body slice` text of the current embedding.
    pub body_hash: Option<String>,
    /// The `body_hash` at the time the description was last written.
    pub description_source_hash: Option<String>,
}

} // verus!
