//! The built-in globals of the script runtime, as documented to clients.
use vstd::prelude::*;

verus! {

/// A built-in function visible to the LLM.
#[derive(Debug, Clone, Copy, PartialEq, Eq)]
pub struct BuiltinFunction {
    pub name: &'static str,
    pub summary: &'static str,
    pub annotation: &'static str,
    pub io_only: bool,
}

/// Description for the luau API entry in `list_apis`.
pub const LUAU_DESCRIPTION: &'static str = "Built-in Luau runtime globals: I/O, JSON, logging. Standard Lua libraries (string, table, math) are also available.";

/// Documentation of `io.open`.
pub const IO_OPEN_ANNOTATION: &'static str = "-- Open a file for reading, writing, or appending.
-- Paths are relative to the I/O directory. Path traversal ('..') is rejected.
-- Modes: \"r\" (default), \"w\", \"a\", \"rb\", \"wb\", \"ab\".
-- Returns a file handle on success, or raises an error.
--
-- File handle methods:
--   handle:read(fmt?) -- \"*a\" (all), \"*l\" (line, default), \"*n\" (number)
--   handle:write(data...) -- returns handle for chaining
--   handle:close() -- returns true
--   handle:seek(whence?, offset?) -- \"set\", \"cur\", \"end\"
--   handle:flush() -- flush write buffer
--   handle:lines() -- line iterator
function io.open(path: string, mode: string?): file_handle end";

/// Documentation of `io.lines`.
pub const IO_LINES_ANNOTATION: &'static str = "-- Iterate over lines in a file. Auto-closes at EOF.
-- Paths are relative to the I/O directory.
--
-- Usage: for line in io.lines(\"data.csv\") do ... end
function io.lines(path: string): () -> string? end";

/// Documentation of `io.list`.
pub const IO_LIST_ANNOTATION: &'static str = "-- List file and directory names in a directory.
-- Paths are relative to the I/O directory. Defaults to the root I/O directory.
-- Returns an array of entry names (not full paths). Does not recurse.
function io.list(path: string?): {string} end";

/// Documentation of `io.type`.
pub const IO_TYPE_ANNOTATION: &'static str = "-- Check if a value is a file handle.
-- Returns \"file\" for an open handle, \"closed file\" for a closed handle, or nil.
function io.type(obj: any): string? end";

/// Documentation of `json.encode`.
pub const JSON_ENCODE_ANNOTATION: &'static str = "-- Serialize a Lua value (table, string, number, boolean, nil) to a JSON string.
function json.encode(value: any): string end";

/// Documentation of `json.decode`.
pub const JSON_DECODE_ANNOTATION: &'static str = "-- Parse a JSON string into a Lua value.
-- Returns tables for objects/arrays, strings, numbers, booleans, or nil.
function json.decode(str: string): any end";

/// Documentation of `print`.
pub const PRINT_ANNOTATION: &'static str = "-- Log output. Arguments are converted to strings and joined with tabs.
-- Output is captured and returned in the 'logs' array of the response.
-- Not written to stdout.
function print(...: any) end";

/// Documentation of `os.remove`.
pub const OS_REMOVE_ANNOTATION: &'static str = "-- Delete a file. Paths are relative to the I/O directory.
-- Cannot delete directories. Raises an error on failure.
function os.remove(path: string): true end";

/// Documentation of `os.clock`.
pub const OS_CLOCK_ANNOTATION: &'static str = "-- Returns the wall-clock time in seconds (with fractional part).
-- Useful for measuring elapsed time within a script.
function os.clock(): number end";

/// Every built-in function, in documentation order.
pub open spec fn builtin_table() -> Seq<BuiltinFunction> {
    seq![
        BuiltinFunction { name: "io.open", summary: "Open a file for reading, writing, or appending", annotation: IO_OPEN_ANNOTATION, io_only: true },
        BuiltinFunction { name: "io.lines", summary: "Iterate over lines in a file", annotation: IO_LINES_ANNOTATION, io_only: true },
        BuiltinFunction { name: "io.list", summary: "List directory entries", annotation: IO_LIST_ANNOTATION, io_only: true },
        BuiltinFunction { name: "io.type", summary: "Check if a value is a file handle", annotation: IO_TYPE_ANNOTATION, io_only: true },
        BuiltinFunction { name: "json.encode", summary: "Serialize a Lua value to a JSON string", annotation: JSON_ENCODE_ANNOTATION, io_only: false },
        BuiltinFunction { name: "json.decode", summary: "Parse a JSON string into a Lua value", annotation: JSON_DECODE_ANNOTATION, io_only: false },
        BuiltinFunction { name: "print", summary: "Log output (captured in response, not written to stdout)", annotation: PRINT_ANNOTATION, io_only: false },
        BuiltinFunction { name: "os.remove", summary: "Delete a file in the I/O directory", annotation: OS_REMOVE_ANNOTATION, io_only: true },
        BuiltinFunction { name: "os.clock", summary: "Wall-clock time in seconds", annotation: OS_CLOCK_ANNOTATION, io_only: false },
    ]
}

/// Whether a built-in is offered: I/O functions only when I/O is enabled.
pub open spec fn offered(io_enabled: bool, f: BuiltinFunction) -> bool {
    io_enabled || !f.io_only
}

/// The built-in functions offered, in documentation order: all of them when
/// I/O is enabled, else those that do not need I/O.
pub fn builtin_functions(io_enabled: bool) -> (r: Vec<BuiltinFunction>)
    ensures
        r@ == builtin_table().filter(|f: BuiltinFunction| offered(io_enabled, f)),
{
    let all: Vec<BuiltinFunction> = vec![
        BuiltinFunction { name: "io.open", summary: "Open a file for reading, writing, or appending", annotation: IO_OPEN_ANNOTATION, io_only: true },
        BuiltinFunction { name: "io.lines", summary: "Iterate over lines in a file", annotation: IO_LINES_ANNOTATION, io_only: true },
        BuiltinFunction { name: "io.list", summary: "List directory entries", annotation: IO_LIST_ANNOTATION, io_only: true },
        BuiltinFunction { name: "io.type", summary: "Check if a value is a file handle", annotation: IO_TYPE_ANNOTATION, io_only: true },
        BuiltinFunction { name: "json.encode", summary: "Serialize a Lua value to a JSON string", annotation: JSON_ENCODE_ANNOTATION, io_only: false },
        BuiltinFunction { name: "json.decode", summary: "Parse a JSON string into a Lua value", annotation: JSON_DECODE_ANNOTATION, io_only: false },
        BuiltinFunction { name: "print", summary: "Log output (captured in response, not written to stdout)", annotation: PRINT_ANNOTATION, io_only: false },
        BuiltinFunction { name: "os.remove", summary: "Delete a file in the I/O directory", annotation: OS_REMOVE_ANNOTATION, io_only: true },
        BuiltinFunction { name: "os.clock", summary: "Wall-clock time in seconds", annotation: OS_CLOCK_ANNOTATION, io_only: false },
    ];
    assert(all@ == builtin_table());
    let ghost pred = |f: BuiltinFunction| offered(io_enabled, f);
    let mut r: Vec<BuiltinFunction> = Vec::new();
    let mut i: usize = 0;
    proof {
        assert(all@.take(0).filter(pred) =~= Seq::<BuiltinFunction>::empty());
    }
    while i < all.len()
        invariant
            i <= all@.len(),
            pred == (|f: BuiltinFunction| offered(io_enabled, f)),
            r@ == all@.take(i as int).filter(pred),
        decreases all@.len() - i,
    {
        proof {
            assert(all@.take(i + 1).drop_last() =~= all@.take(i as int));
            reveal(Seq::filter);
        }
        let f = all[i];
        if io_enabled || !f.io_only {
            r.push(f);
        }
        i = i + 1;
    }
    assert(all@.take(all@.len() as int) =~= all@);
    r
}

} // verus!
