//! A compiled module: its functions' signatures and compiled bodies, found
//! by name, and the slot of `main` when it can be run.
use vstd::prelude::*;
use vstd::bytes::spec_u32_to_le_bytes;
use crate::bytecode::{
    BytecodeHeader, BytecodeSerializable, all_writable, lemma_map_from_distinct, lemma_seq_roundtrip,
    read_fn_map_bytecode, read_vec, spec_map_from, spec_read_seq, spec_seq_bytecode, views, write_all,
    write_fn_map_bytecode,
};
use crate::compiler::compiler::{Compiler, slots_below, spec_compile};
use crate::compiler::parser::{Parser, add_items, empty_ast_view, lemma_add_items_counts, lemma_add_items_slots, p_top, same_file};
use crate::compiler::token::Token;
use crate::compiler::type_checker::{TypeChecker, tc_functions};
use crate::errors::{CompileError, CompileErrorView};
use crate::function::{InternalFunctionSigniture, InternalFunctionSource, SignitureView, SourceView};
use crate::name_map::{NameMap, distinct_names, lookup};
use crate::interpreter::code_wf;

verus! {

pub struct Module {
    main_slot: Option<u32>,
    function_map: NameMap,
    function_signitures: Vec<InternalFunctionSigniture>,
    function_sources: Vec<InternalFunctionSource>,
}

/// A module seen as plain data.
pub struct ModuleView {
    pub main_slot: Option<u32>,
    pub function_map: Seq<(Seq<char>, u32)>,
    pub signitures: Seq<SignitureView>,
    pub sources: Seq<SourceView>,
}

impl View for Module {
    type V = ModuleView;

    open spec fn view(&self) -> ModuleView {
        ModuleView {
            main_slot: self.main_slot(),
            function_map: self.function_map().entries(),
            signitures: views(self.signitures()),
            sources: views(self.sources()),
        }
    }
}

/// The bytes of a module: a header (with the number of names in its map),
/// the name map, every signature, then every compiled body.
pub open spec fn spec_module_bytes(v: ModuleView) -> Seq<u8> {
    <BytecodeHeader as BytecodeSerializable>::spec_bytecode(
        BytecodeHeader { version: 1, main_slot: v.main_slot, function_count: v.function_map.len() as u32 },
    ) + spec_seq_bytecode::<(String, u32)>(v.function_map) + spec_seq_bytecode::<InternalFunctionSigniture>(
        v.signitures,
    ) + spec_seq_bytecode::<InternalFunctionSource>(v.sources)
}

/// Whether every part of a module can be written: the count of names fits
/// in 32 bits and each entry, signature and body can be written.
pub open spec fn module_parts_writable(v: ModuleView) -> bool {
    &&& v.function_map.len() <= u32::MAX
    &&& all_writable::<(String, u32)>(v.function_map)
    &&& all_writable::<InternalFunctionSigniture>(v.signitures)
    &&& all_writable::<InternalFunctionSource>(v.sources)
}

/// What compiling a token sequence gives: it is parsed (as file 0), then
/// type checked, then compiled, with no dependencies; the first error of
/// these steps is the result otherwise.
pub open spec fn spec_from_tokens(ts: Seq<Token>) -> Result<ModuleView, CompileErrorView> {
    match p_top(ts, 0, 0).0 {
        Err(e) => Err(e),
        Ok(items) => {
            let a = add_items(empty_ast_view(), items);
            match tc_functions(a, Seq::empty(), Seq::empty(), 0, a.entries.len() as u32 as int) {
                Err(e) => Err(e),
                Ok(_) => spec_compile(a, Seq::empty()),
            }
        },
    }
}

impl Module {
    pub closed spec fn main_slot(&self) -> Option<u32> {
        self.main_slot
    }

    pub closed spec fn function_map(&self) -> NameMap {
        self.function_map
    }

    pub closed spec fn signitures(&self) -> Seq<InternalFunctionSigniture> {
        self.function_signitures@
    }

    pub closed spec fn sources(&self) -> Seq<InternalFunctionSource> {
        self.function_sources@
    }

    /// No name occurs twice in the function map.
    pub open spec fn wf(&self) -> bool {
        self.function_map().wf()
    }

    pub fn new(
        main_slot: Option<u32>,
        function_map: NameMap,
        function_signitures: Vec<InternalFunctionSigniture>,
        function_sources: Vec<InternalFunctionSource>,
    ) -> (m: Self)
        ensures
            m.main_slot() == main_slot,
            m.function_map() == function_map,
            m.signitures() == function_signitures@,
            m.sources() == function_sources@,
    {
        Self { main_slot, function_map, function_signitures, function_sources }
    }

    /// A module with no functions and no `main`.
    pub fn empty() -> (m: Self)
        ensures
            m.wf(),
            m.main_slot() is None,
            m.function_map().entries().len() == 0,
            m.signitures().len() == 0,
            m.sources().len() == 0,
    {
        Self {
            main_slot: None,
            function_map: NameMap::new(),
            function_signitures: Vec::new(),
            function_sources: Vec::new(),
        }
    }

    /// The slot of `main`; the module must have one.
    pub fn main_slot_value(&self) -> (s: u32)
        requires
            self.main_slot() is Some,
        ensures
            self.main_slot() == Some(s),
    {
        self.main_slot.unwrap()
    }

    /// Whether the module has a `main` function to run.
    pub fn is_executable(&self) -> (b: bool)
        ensures
            b == self.main_slot() is Some,
    {
        self.main_slot.is_some()
    }

    /// The compiled body of `main`, if there is one in its slot.
    pub fn get_main_source(&self) -> (r: Option<&InternalFunctionSource>)
        ensures
            r == (match self.main_slot() {
                Some(slot) => if (slot as int) < self.sources().len() {
                    Some(&self.sources()[slot as int])
                } else {
                    None
                },
                None => None,
            }),
    {
        match self.main_slot {
            Some(slot) => {
                if (slot as usize) < self.function_sources.len() {
                    Some(&self.function_sources[slot as usize])
                } else {
                    None
                }
            },
            None => None,
        }
    }

    pub fn get_sources(&self) -> (s: &[InternalFunctionSource])
        ensures
            s@ == self.sources(),
    {
        self.function_sources.as_slice()
    }

    /// The signature of the function called `name`.
    pub fn get_function_signiture(&self, name: &str) -> (r: Option<&InternalFunctionSigniture>)
        requires
            self.wf(),
        ensures
            r == (match lookup(self.function_map().entries(), name@) {
                Some(slot) => if (slot as int) < self.signitures().len() {
                    Some(&self.signitures()[slot as int])
                } else {
                    None
                },
                None => None,
            }),
    {
        match self.function_map.get(name) {
            Some(slot) => {
                if (slot as usize) < self.function_signitures.len() {
                    Some(&self.function_signitures[slot as usize])
                } else {
                    None
                }
            },
            None => None,
        }
    }

    /// The slot of the function called `name`.
    pub fn get_slot(&self, name: &str) -> (r: Option<u32>)
        requires
            self.wf(),
        ensures
            r == lookup(self.function_map().entries(), name@),
    {
        self.function_map.get(name)
    }

    /// Compiles a module from tokens whose float literals carry their bit
    /// patterns: parse, type check, compile.
    pub fn from_tokens(tokens: &[Token]) -> (r: Result<Module, CompileError>)
        requires
            same_file(tokens@),
        ensures
            match spec_from_tokens(tokens@) {
                Ok(v) => r matches Ok(m) && m@ == v && m.wf(),
                Err(e) => r matches Err(x) && x@ == e,
            },
            r matches Ok(m) ==> (m@.function_map.len() == m@.signitures.len() && m@.signitures.len() <= u32::MAX
                ==> code_wf(m@.sources)),
    {
        let dependencies: Vec<(String, Module)> = Vec::new();
        let parser = Parser::new(tokens, 0);
        proof {
            let v = parser.ast()@;
            assert(v.entries =~= empty_ast_view().entries);
            assert(v.signitures =~= empty_ast_view().signitures);
            assert(v.bodies =~= empty_ast_view().bodies);
            assert(v.imports =~= empty_ast_view().imports);
        }
        let ast = parser.parse()?;
        proof {
            if let Ok(items) = p_top(tokens@, 0, 0).0 {
                lemma_add_items_counts(empty_ast_view(), items);
            }
        }
        let checker = TypeChecker::new(&ast, dependencies.as_slice());
        checker.check()?;
        proof {
            let v = ast@;
            if v.entries.len() == v.signitures.len() && v.signitures.len() <= u32::MAX {
                if let Ok(items) = p_top(tokens@, 0, 0).0 {
                    lemma_add_items_slots(empty_ast_view(), items);
                }
                assert(slots_below(v.entries, v.entries.len() as int));
            }
        }
        let compiler = Compiler::new(ast, dependencies.as_slice());
        compiler.compile()
    }

    /// Reads a module from the start of `bytes`.
    pub fn from_bytecode_bytes(bytes: &[u8]) -> (r: Result<Self, String>)
        ensures
            match <Module as BytecodeSerializable>::spec_read(bytes@, 0) {
                Ok((v, _)) => r matches Ok(m) && m@ == v && m.wf(),
                Err(e) => r matches Err(x) && x@ == e,
            },
    {
        let mut cursor: usize = 0;
        Self::read_module(bytes, &mut cursor)
    }

    /// The bytecode form of the module.
    pub fn to_bytecode(&self) -> (bytes: Vec<u8>)
        requires
            module_parts_writable(self@),
        ensures
            bytes@ == spec_module_bytes(self@),
    {
        let mut buffer: Vec<u8> = Vec::new();
        self.write_module(&mut buffer);
        assert(buffer@ =~= spec_module_bytes(self@));
        buffer
    }

    fn write_module(&self, buffer: &mut Vec<u8>)
        requires
            module_parts_writable(self@),
        ensures
            final(buffer)@ == old(buffer)@ + spec_module_bytes(self@),
    {
        let header = BytecodeHeader::new(self.main_slot, self.function_map.len() as u32);
        header.write_bytecode(buffer);
        write_fn_map_bytecode(&self.function_map, buffer);
        write_all(self.function_signitures.as_slice(), buffer);
        write_all(self.function_sources.as_slice(), buffer);
        assert(buffer@ =~= old(buffer)@ + spec_module_bytes(self@));
    }

    fn read_module(bytes: &[u8], cursor: &mut usize) -> (r: Result<Module, String>)
        ensures
            match <Module as BytecodeSerializable>::spec_read(bytes@, *old(cursor) as int) {
                Ok((v, c)) => r matches Ok(m) && m@ == v && m.wf() && *final(cursor) as int == c,
                Err(e) => r matches Err(x) && x@ == e,
            },
    {
        let header = BytecodeHeader::from_bytecode(bytes, cursor)?;
        let count = header.function_count as usize;
        let function_map = read_fn_map_bytecode(bytes, cursor, count)?;
        let function_signitures = read_vec::<InternalFunctionSigniture>(bytes, cursor, count)?;
        let function_sources = read_vec::<InternalFunctionSource>(bytes, cursor, count)?;
        Ok(Module { main_slot: header.main_slot, function_map, function_signitures, function_sources })
    }
}

/// Reading a module file back gives the module that was written, with the
/// cursor at the end of the file, for every consistent module whose parts
/// can be written.
pub proof fn lemma_module_bytecode_roundtrip(v: ModuleView)
    requires
        <Module as BytecodeSerializable>::spec_writable(v),
    ensures
        <Module as BytecodeSerializable>::spec_read(spec_module_bytes(v), 0) == Ok::<(ModuleView, int), Seq<char>>(
            (v, spec_module_bytes(v).len() as int),
        ),
{
    let empty = Seq::<u8>::empty();
    <Module as BytecodeSerializable>::lemma_roundtrip(v, empty, empty);
    assert(empty + spec_module_bytes(v) + empty =~= spec_module_bytes(v));
}

/// Each part of a written module is read back at its place.
#[verifier::spinoff_prover]
#[verifier::rlimit(50)]
proof fn lemma_module_parts(v: ModuleView, prefix: Seq<u8>, suffix: Seq<u8>)
    requires
        <Module as BytecodeSerializable>::spec_writable(v),
    ensures
        ({
            let n = v.function_map.len();
            let h = BytecodeHeader { version: 1, main_slot: v.main_slot, function_count: n as u32 };
            let a = <BytecodeHeader as BytecodeSerializable>::spec_bytecode(h);
            let b = spec_seq_bytecode::<(String, u32)>(v.function_map);
            let c = spec_seq_bytecode::<InternalFunctionSigniture>(v.signitures);
            let d = spec_seq_bytecode::<InternalFunctionSource>(v.sources);
            let all = prefix + (a + b + c + d) + suffix;
            let p0 = prefix.len() as int;
            &&& <BytecodeHeader as BytecodeSerializable>::spec_read(all, p0) == Ok::<(BytecodeHeader, int), Seq<char>>(
                (h, p0 + a.len()),
            )
            &&& spec_read_seq::<(String, u32)>(all, p0 + a.len(), n) == Ok::<(Seq<(Seq<char>, u32)>, int), Seq<char>>(
                (v.function_map, p0 + a.len() + b.len()),
            )
            &&& spec_read_seq::<InternalFunctionSigniture>(all, p0 + a.len() + b.len(), n) == Ok::<(Seq<SignitureView>, int), Seq<char>>(
                (v.signitures, p0 + a.len() + b.len() + c.len()),
            )
            &&& spec_read_seq::<InternalFunctionSource>(all, p0 + a.len() + b.len() + c.len(), n) == Ok::<(Seq<SourceView>, int), Seq<char>>(
                (v.sources, p0 + a.len() + b.len() + c.len() + d.len()),
            )
        }),
{
    let n = v.function_map.len();
    let h = BytecodeHeader { version: 1, main_slot: v.main_slot, function_count: n as u32 };
    let a = <BytecodeHeader as BytecodeSerializable>::spec_bytecode(h);
    let b = spec_seq_bytecode::<(String, u32)>(v.function_map);
    let c = spec_seq_bytecode::<InternalFunctionSigniture>(v.signitures);
    let d = spec_seq_bytecode::<InternalFunctionSource>(v.sources);
    let all = prefix + (a + b + c + d) + suffix;
    assert(all =~= prefix + a + (b + c + d + suffix));
    <BytecodeHeader as BytecodeSerializable>::lemma_roundtrip(h, prefix, b + c + d + suffix);
    assert(all =~= (prefix + a) + b + (c + d + suffix));
    lemma_seq_roundtrip::<(String, u32)>(v.function_map, prefix + a, c + d + suffix);
    assert(all =~= (prefix + a + b) + c + (d + suffix));
    lemma_seq_roundtrip::<InternalFunctionSigniture>(v.signitures, prefix + a + b, d + suffix);
    assert(all =~= (prefix + a + b + c) + d + suffix);
    lemma_seq_roundtrip::<InternalFunctionSource>(v.sources, prefix + a + b + c, suffix);
}

/// A module file. It is read back as written when the module is
/// consistent: as many signatures and bodies as names, no name twice.
impl BytecodeSerializable for Module {
    open spec fn spec_writable(v: ModuleView) -> bool {
        &&& module_parts_writable(v)
        &&& distinct_names(v.function_map)
        &&& v.signitures.len() == v.function_map.len()
        &&& v.sources.len() == v.function_map.len()
    }

    open spec fn spec_bytecode(v: ModuleView) -> Seq<u8> {
        spec_module_bytes(v)
    }

    open spec fn spec_read(bytes: Seq<u8>, cursor: int) -> Result<(ModuleView, int), Seq<char>> {
        match <BytecodeHeader as BytecodeSerializable>::spec_read(bytes, cursor) {
            Ok((h, c)) => match spec_read_seq::<(String, u32)>(bytes, c, h.function_count as nat) {
                Ok((es, c2)) => match spec_read_seq::<InternalFunctionSigniture>(bytes, c2, h.function_count as nat) {
                    Ok((sigs, c3)) => match spec_read_seq::<InternalFunctionSource>(bytes, c3, h.function_count as nat) {
                        Ok((srcs, c4)) => Ok(
                            (ModuleView { main_slot: h.main_slot, function_map: spec_map_from(es), signitures: sigs, sources: srcs }, c4),
                        ),
                        Err(m) => Err(m),
                    },
                    Err(m) => Err(m),
                },
                Err(m) => Err(m),
            },
            Err(m) => Err(m),
        }
    }

    fn write_bytecode(&self, buffer: &mut Vec<u8>) {
        self.write_module(buffer);
    }

    fn from_bytecode(bytes: &[u8], cursor: &mut usize) -> (r: Result<Module, String>) {
        Self::read_module(bytes, cursor)
    }

    proof fn lemma_roundtrip(v: ModuleView, prefix: Seq<u8>, suffix: Seq<u8>) {
        let n = v.function_map.len();
        let h = BytecodeHeader { version: 1, main_slot: v.main_slot, function_count: n as u32 };
        let a = <BytecodeHeader as BytecodeSerializable>::spec_bytecode(h);
        let b = spec_seq_bytecode::<(String, u32)>(v.function_map);
        let c = spec_seq_bytecode::<InternalFunctionSigniture>(v.signitures);
        let d = spec_seq_bytecode::<InternalFunctionSource>(v.sources);
        let all = prefix + (a + b + c + d) + suffix;
        let p0 = prefix.len() as int;
        let p1 = p0 + a.len();
        let p2 = p1 + b.len();
        let p3 = p2 + c.len();
        let p4 = p3 + d.len();
        lemma_module_parts(v, prefix, suffix);
        lemma_map_from_distinct(v.function_map);
        assert(Self::spec_bytecode(v).len() == a.len() + b.len() + c.len() + d.len());
        assert(prefix + Self::spec_bytecode(v) + suffix == all);
    }
}

} // verus!
