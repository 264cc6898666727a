//! What the interactive shell does to a line before it runs it.

use vstd::prelude::*;
use crate::text::{
    concat3, ends_with, first_split, last_split, split_first, split_last, starts_with,
    strip_prefix, trim, trim_end_matches, trimmed, without_trailing,
};

verus! {

/// What follows `import` on the line, without white space around it.
pub open spec fn import_rest(line: Seq<char>) -> Seq<char> {
    trimmed(trimmed(line).skip("import"@.len() as int))
}

/// Whether the line is an import statement: after the white space at its
/// start stands `import`, followed by a blank or a tab.
pub open spec fn is_import(line: Seq<char>) -> bool {
    "import "@.is_prefix_of(trimmed(line)) || "import\t"@.is_prefix_of(trimmed(line))
}

/// Whether the text is a module name in quotes.
pub open spec fn is_quoted(text: Seq<char>) -> bool {
    "\""@.is_prefix_of(text) || "'"@.is_prefix_of(text) || "`"@.is_prefix_of(text)
}

/// The module of an import: the text without white space around it and
/// without semicolons at its end.
pub open spec fn module_of(text: Seq<char>) -> Seq<char> {
    without_trailing(trimmed(text), ';')
}

/// Whether the text is a list of names in braces.
pub open spec fn is_braced(text: Seq<char>) -> bool {
    "{"@.is_prefix_of(text) && "}"@.is_suffix_of(text)
}

/// The statement that binds `names` to the module by a dynamic import.
pub open spec fn binding(names: Seq<char>, module: Seq<char>) -> Seq<char> {
    "const "@ + names + " = await import("@ + module + ")"@
}

/// The names that a dynamic import binds for what the statement imports:
/// a namespace by its name; a list in braces as it stands; a default with a
/// list in braces behind a comma as one list that starts with the default;
/// and anything else as the default.
pub open spec fn bound_names(imports: Seq<char>) -> Seq<char> {
    let halves = first_split(imports, ","@);
    if "* as "@.is_prefix_of(imports) {
        trimmed(imports.skip("* as "@.len() as int))
    } else if is_braced(imports) {
        imports
    } else if halves is Some && is_braced(trimmed(halves->Some_0.1)) {
        let inner = trimmed(halves->Some_0.1);
        "{ default: "@ + trimmed(halves->Some_0.0) + ", "@ + inner.subrange(1, inner.len() - 1)
            + " }"@
    } else {
        "{ default: "@ + imports + " }"@
    }
}

/// The line as the shell runs it: an import statement is put as a dynamic
/// import, any other line stays as it is. What is imported stands before the
/// last ` from ` of the statement, the module behind it; a statement without
/// it that names a module in quotes imports for the effect alone.
pub open spec fn dynamic_import(line: Seq<char>) -> Seq<char> {
    if !is_import(line) {
        line
    } else {
        match last_split(import_rest(line), " from "@) {
            Some((left, right)) => binding(bound_names(trimmed(left)), module_of(right)),
            None => if is_quoted(module_of(import_rest(line))) {
                "await import("@ + module_of(import_rest(line)) + ")"@
            } else {
                line
            },
        }
    }
}

/// The names in braces without the braces.
fn unbraced(list: &str) -> (r: &str)
    requires
        is_braced(list@),
    ensures
        r@ == list@.subrange(1, list@.len() - 1),
{
    let n = list.unicode_len();
    proof {
        reveal_strlit("{");
        reveal_strlit("}");
        if n < 2 {
            assert(list@.subrange(0, 1) == "{"@);
            assert(list@.subrange(n - 1, n as int) == "}"@);
            assert(list@.subrange(0, 1)[0] == '{');
            assert(list@.subrange(n - 1, n as int)[0] == '}');
        }
    }
    list.substring_char(1, n - 1)
}

/// The names that a dynamic import binds for what the statement imports.
fn names_for(imports: &str) -> (r: String)
    ensures
        r@ == bound_names(imports@),
{
    let halves = split_first(imports, ",");
    match strip_prefix(imports, "* as ") {
        Some(name) => {
            return String::from_str(trim(name));
        },
        None => {},
    }
    if starts_with(imports, "{") && ends_with(imports, "}") {
        return String::from_str(imports);
    }
    match halves {
        Some((default_name, others)) => {
            let others = trim(others);
            if starts_with(others, "{") && ends_with(others, "}") {
                let mut out = concat3("{ default: ", trim(default_name), ", ");
                out.append(unbraced(others));
                out.append(" }");
                return out;
            }
        },
        None => {},
    }
    concat3("{ default: ", imports, " }")
}

/// Puts an import statement as a dynamic import, which the shell can run
/// where a static one cannot stand:
/// `import * as name from "module"` becomes `const name = await import("module")`,
/// `import { a, b } from "module"` becomes `const { a, b } = await import("module")`,
/// `import name from "module"` becomes `const { default: name } = await import("module")`,
/// and `import "module"` becomes `await import("module")`. Any other line
/// comes back as it is.
pub fn transform_import_to_dynamic(input: &str) -> (r: String)
    ensures
        r@ == dynamic_import(input@),
{
    let line = trim(input);
    if !starts_with(line, "import ") && !starts_with(line, "import\t") {
        return String::from_str(input);
    }
    proof {
        reveal_strlit("import");
        reveal_strlit("import ");
        reveal_strlit("import\t");
        let head = if "import "@.is_prefix_of(line@) {
            "import "@
        } else {
            "import\t"@
        };
        assert(head == line@.subrange(0, 7));
        assert("import"@ =~= line@.subrange(0, 6)) by {
            assert forall|k: int| 0 <= k < 6 implies "import"@[k] == line@.subrange(0, 6)[k] by {
                assert(head[k] == line@.subrange(0, 7)[k]);
            }
        }
        assert("import"@.is_prefix_of(line@));
    }
    let keyword = match strip_prefix(line, "import") {
        Some(rest) => rest,
        None => line,
    };
    let rest = trim(keyword);
    assert(is_import(input@));
    assert(rest@ == import_rest(input@));
    match split_last(rest, " from ") {
        Some((left, right)) => {
            let names = names_for(trim(left));
            let module = trim_end_matches(trim(right), ';');
            let mut out = concat3("const ", names.as_str(), " = await import(");
            out.append(module);
            out.append(")");
            assert(last_split(import_rest(input@), " from "@) == Some((left@, right@)));
            assert(module@ == module_of(right@));
            assert(out@ =~= binding(bound_names(trimmed(left@)), module_of(right@)));
            out
        },
        None => {
            let module = trim_end_matches(trim(rest), ';');
            assert(last_split(import_rest(input@), " from "@).is_none());
            assert(module@ == module_of(import_rest(input@)));
            if starts_with(module, "\"") || starts_with(module, "'") || starts_with(module, "`") {
                concat3("await import(", module, ")")
            } else {
                String::from_str(input)
            }
        },
    }
}

} // verus!
