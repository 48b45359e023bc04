//! The external script-compiler service: source text in, an opaque
//! serialized callable ("bytecode") out.  The bytecode's internal structure
//! is never read here; it is only carried, ciphered, and later handed back
//! to the counterpart runtime.

use vstd::prelude::*;
use mlua::Lua;
use std::cell::RefCell;
use std::rc::Rc;
use crate::errors::CompileError;

verus! {

/// Relies on mlua (Lua 5.4): loads `chunk` as a Lua chunk under the given
/// diagnostic name and returns the serialized form of the resulting function
/// (`Function::dump`, the serialization `string.dump` performs).  When the
/// chunk does not parse, the runtime's diagnostic comes back as the error.
#[verifier::external_body]
pub fn compile(name: &str, chunk: &Vec<u8>) -> Result<Vec<u8>, CompileError> {
    let lua = Lua::new();
    match lua.load(chunk.as_slice()).set_name(name).into_function() {
        Ok(f) => Ok(f.dump(false)),
        Err(e) => Err(CompileError { message: e.to_string() }),
    }
}

/// Relies on mlua (Lua 5.4): runs loader bytecode in a fresh interpreter
/// whose global `__U_Lib` records each pair of string arguments it is called
/// with, in call order, and returns the recorded pairs; when the chunk will
/// not load or stops with an error, the runtime's diagnostic comes back
/// instead.
#[verifier::external_body]
pub(crate) fn run_loader(bytecode: &Vec<u8>) -> Result<Vec<(String, String)>, String> {
    let lua = Lua::new();
    let pairs = Rc::new(RefCell::new(Vec::new()));
    let sink = Rc::clone(&pairs);
    let hook = lua
        .create_function(move |_, (n, d): (String, String)| Ok(sink.borrow_mut().push((n, d))))
        .map_err(|e| e.to_string())?;
    lua.globals().set("__U_Lib", hook).map_err(|e| e.to_string())?;
    lua.load(bytecode.as_slice()).exec().map_err(|e| e.to_string())?;
    let out = pairs.borrow().clone();
    Ok(out)
}

} // verus!
