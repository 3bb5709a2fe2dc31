//! The assembler and the executable code it produces.

use vstd::prelude::*;
use fnv::FnvHashMap;
use memmap::{Mmap, MmapMut};
use crate::Error;
use crate::defs::Instruction;
use crate::encoding::{append, encode, encoding, placeholder, Encoded};
use crate::labels::{label_offsets, table_clear, table_define, table_lookup, table_with_capacity};
use crate::session::{
    displacement_bytes, lemma_field_patched, lemma_push_well_formed, Session, FIELD,
};
use crate::region::{
    base_address, fill, load_byte, map_writable, region_base, seal_executable, sealed_bytes,
    writable_bytes,
};
use crate::text::{format_program, program_text};

verus! {

/// The size of every executable region, in bytes.  A program can be no
/// longer than this.
pub const REGION_SIZE: usize = 262144;

/// A program in executable memory.
///
/// The handle owns the region for as long as it lives; the code must not be
/// entered after the handle is gone.
pub struct Code {
    region: Mmap,
    len: usize,
}

impl View for Code {
    type V = Seq<u8>;

    /// The program held by the region.
    closed spec fn view(&self) -> Seq<u8> {
        self.region().subrange(0, self.len as int)
    }
}

impl Code {
    /// Everything the region holds: the program, then padding.
    pub closed spec fn region(&self) -> Seq<u8> {
        sealed_bytes(self.region)
    }

    #[verifier::type_invariant]
    spec fn holds_program(&self) -> bool {
        self.len <= self.region().len()
    }

    /// The address at which the region starts.
    pub closed spec fn base(&self) -> usize {
        region_base(self.region)
    }

    /// Copies `bytes` to the start of a fresh region of [`REGION_SIZE`]
    /// bytes and makes the region executable.  The region is writable only
    /// while it is being filled.
    ///
    /// Fails with [`Error::MmapCreate`] if the system grants no region and
    /// with [`Error::MmapSetMode`] if it refuses to make the region
    /// executable.
    pub fn materialize(bytes: &[u8]) -> (made: Result<Code, Error>)
        requires
            bytes@.len() <= REGION_SIZE,
        ensures
            match made {
                Ok(code) => {
                    &&& code@ == bytes@
                    &&& code.region().len() == REGION_SIZE
                    &&& code.region().subrange(0, bytes@.len() as int) == bytes@
                },
                Err(e) => e == Error::MmapCreate || e == Error::MmapSetMode,
            },
    {
        Code::mapped_code(map_writable(REGION_SIZE), bytes)
    }

    /// What becomes of the system's answer to the request for a region.
    ///
    /// A refusal is [`Error::MmapCreate`].  A region that was granted is
    /// filled with `bytes` and made executable; if the system refuses
    /// that, the failure is [`Error::MmapSetMode`].
    pub fn mapped_code(
        mapped: Result<MmapMut, std::io::Error>,
        bytes: &[u8],
    ) -> (made: Result<Code, Error>)
        requires
            mapped matches Ok(region) ==> bytes@.len() <= writable_bytes(region).len(),
        ensures
            mapped is Err ==> made == Err::<Code, Error>(Error::MmapCreate),
            mapped matches Ok(region) ==> match made {
                Ok(code) => {
                    &&& code@ == bytes@
                    &&& code.region().len() == writable_bytes(region).len()
                    &&& code.region().subrange(0, bytes@.len() as int) == bytes@
                    &&& code.region().subrange(
                        bytes@.len() as int,
                        writable_bytes(region).len() as int,
                    ) == writable_bytes(region).subrange(
                        bytes@.len() as int,
                        writable_bytes(region).len() as int,
                    )
                },
                Err(e) => e == Error::MmapSetMode,
            },
    {
        match mapped {
            Ok(mut region) => {
                fill(&mut region, bytes);
                Code::sealed_code(seal_executable(region), bytes.len())
            },
            Err(_) => Err(Error::MmapCreate),
        }
    }

    /// What becomes of the system's answer to the request to make a
    /// region executable.
    ///
    /// A region that was made executable becomes the handle of the program
    /// in its first `len` bytes.  A refusal is [`Error::MmapSetMode`].
    pub fn sealed_code(
        sealed: Result<Mmap, std::io::Error>,
        len: usize,
    ) -> (made: Result<Code, Error>)
        requires
            sealed matches Ok(region) ==> len <= sealed_bytes(region).len(),
        ensures
            match sealed {
                Ok(region) => {
                    &&& made matches Ok(code)
                    &&& code.region() == sealed_bytes(region)
                    &&& code@ == sealed_bytes(region).subrange(0, len as int)
                    &&& code.base() == region_base(region)
                },
                Err(_) => made == Err::<Code, Error>(Error::MmapSetMode),
            },
    {
        match sealed {
            Ok(region) => Ok(Code { region, len }),
            Err(_) => Err(Error::MmapSetMode),
        }
    }

    /// The address of the first instruction: the address at which the
    /// region starts.  It stays the same for as long as the handle lives
    /// and is never zero, so it can stand for a function.
    pub fn ptr(&self) -> (address: usize)
        ensures
            address == self.base(),
            address != 0,
    {
        base_address(&self.region)
    }

    /// The length of the program in bytes.
    pub fn len(&self) -> (n: usize)
        ensures
            n == self@.len(),
    {
        proof {
            use_type_invariant(self);
        }
        self.len
    }

    /// The byte of the program at `offset`, if the program is that long.
    pub fn byte_at(&self, offset: usize) -> (byte: Option<u8>)
        ensures
            byte == (if offset < self@.len() {
                Some(self@[offset as int])
            } else {
                None
            }),
    {
        proof {
            use_type_invariant(self);
        }
        if offset < self.len {
            Some(load_byte(&self.region, offset))
        } else {
            None
        }
    }
}

/// An assembly session: instructions go in, executable code comes out.
pub struct Assembler {
    labels: FnvHashMap<&'static str, u64>,
    mentions: Vec<(&'static str, u64)>,
    buffer: Vec<u8>,
}

impl View for Assembler {
    type V = Session;

    closed spec fn view(&self) -> Session {
        Session {
            labels: label_offsets(self.labels),
            mentions: self.mentions@.map_values(|m: (&'static str, u64)| (m.0@, m.1)),
            buffer: self.buffer@,
        }
    }
}

impl Assembler {
    /// An assembler with an empty program.
    pub fn new() -> (fresh: Assembler)
        ensures
            fresh@ == Session::empty(),
    {
        let fresh = Assembler {
            labels: table_with_capacity(16),
            mentions: Vec::new(),
            buffer: Vec::new(),
        };
        assert(fresh@.mentions =~= Seq::empty());
        fresh
    }

    /// The program so far as text: each byte as `0x` and two hexadecimal
    /// digits, with blanks between the bytes and square brackets around
    /// them.
    pub fn buffer_fmt(&self) -> (text: String)
        ensures
            text@ == program_text(self@.buffer),
    {
        format_program(self.buffer.as_slice())
    }

    /// Encodes `i` and appends it to the program.
    ///
    /// Fails with [`Error::Nyi`] if the instruction has no encoding for
    /// its operands, and with [`Error::Serialize`] if the program would
    /// outgrow a region; the session is then left as it was.
    pub fn push_instruction(&mut self, i: Instruction) -> (done: Result<(), Error>)
        requires
            old(self)@.well_formed(),
        ensures
            final(self)@.well_formed(),
            match done {
                Ok(()) => old(self)@.has_room_for(i) && final(self)@ == old(self)@.push(i),
                Err(e) => final(self)@ == old(self)@ && e == (if encoding(i) is None {
                    Error::Nyi
                } else {
                    Error::Serialize
                }) && !old(self)@.has_room_for(i),
            },
    {
        self.serialize_instruction(i)
    }

    /// Resolves the labels, then copies the program into an executable
    /// region.
    ///
    /// Fails with [`Error::UnknownLabel`] exactly if a jump mentions a label
    /// that is not defined; the session is then left as it was.  Otherwise
    /// every displacement is filled in and the label table and the
    /// mentions are used up, whether or not the system grants the region.
    pub fn commit(&mut self) -> (made: Result<Code, Error>)
        requires
            old(self)@.well_formed(),
        ensures
            final(self)@.well_formed(),
            !old(self)@.resolvable() ==> {
                &&& made == Err::<Code, Error>(Error::UnknownLabel)
                &&& final(self)@ == old(self)@
            },
            old(self)@.resolvable() ==> old(self)@.resolved(final(self)@) && match made {
                Ok(code) => code@ == final(self)@.buffer && code.region().len() == REGION_SIZE,
                Err(e) => e == Error::MmapCreate || e == Error::MmapSetMode,
            },
    {
        match self.resolve_labels() {
            Ok(()) => Code::materialize(self.buffer.as_slice()),
            Err(e) => Err(e),
        }
    }

    /// Looks up the label of every mention, in the order of the mentions.
    fn targets(&self) -> (found: Result<Vec<u64>, Error>)
        ensures
            match found {
                Ok(targets) => {
                    &&& self@.resolvable()
                    &&& targets@.len() == self@.mentions.len()
                    &&& forall|i: int|
                        0 <= i < targets@.len() ==> #[trigger] targets@[i]
                            == self@.labels[self@.mentions[i].0]
                },
                Err(e) => !self@.resolvable() && e == Error::UnknownLabel,
            },
    {
        let mut targets: Vec<u64> = Vec::new();
        let mut at: usize = 0;
        while at < self.mentions.len()
            invariant
                at <= self.mentions.len(),
                targets@.len() == at,
                forall|i: int|
                    0 <= i < at ==> self@.labels.contains_key((#[trigger] self@.mentions[i]).0),
                forall|i: int|
                    0 <= i < at ==> #[trigger] targets@[i] == self@.labels[self@.mentions[i].0],
            decreases self.mentions.len() - at,
        {
            let (name, _) = self.mentions[at];
            match table_lookup(&self.labels, name) {
                Some(defined) => targets.push(defined),
                None => {
                    assert(!self@.labels.contains_key(self@.mentions[at as int].0));
                    return Err(Error::UnknownLabel);
                },
            }
            at += 1;
        }
        Ok(targets)
    }

    /// Fills in the displacement of every jump to a label, then forgets
    /// the labels and the mentions.
    ///
    /// Fails with [`Error::UnknownLabel`] exactly if a jump mentions a label
    /// that is not defined; the session is then left as it was.
    pub fn resolve_labels(&mut self) -> (done: Result<(), Error>)
        requires
            old(self)@.well_formed(),
        ensures
            final(self)@.well_formed(),
            match done {
                Ok(()) => old(self)@.resolvable() && old(self)@.resolved(final(self)@),
                Err(e) => {
                    &&& !old(self)@.resolvable()
                    &&& e == Error::UnknownLabel
                    &&& final(self)@ == old(self)@
                },
            },
    {
        let targets = match self.targets() {
            Ok(targets) => targets,
            Err(e) => {
                return Err(e);
            },
        };
        let ghost before = self@;
        let mut done: usize = 0;
        while done < self.mentions.len()
            invariant
                done <= self.mentions.len(),
                before.well_formed(),
                before.resolvable(),
                self@.labels == before.labels,
                self@.mentions == before.mentions,
                targets@.len() == before.mentions.len(),
                forall|i: int|
                    0 <= i < targets@.len() ==> #[trigger] targets@[i]
                        == before.labels[before.mentions[i].0],
                before.relocated_upto(done as int, self@.buffer),
            decreases self.mentions.len() - done,
        {
            let (_, at) = self.mentions[done];
            let field = displacement_bytes(targets[done], at);
            let ghost current = self@.buffer;
            let first = at as usize;
            self.buffer[first] = field[0];
            self.buffer[first + 1] = field[1];
            self.buffer[first + 2] = field[2];
            self.buffer[first + 3] = field[3];
            proof {
                assert(before.mentions[done as int].1 == at);
                assert(self@.buffer.subrange(at as int, at + FIELD) =~= field@);
                lemma_field_patched(before, done as int, current, self@.buffer);
            }
            done += 1;
        }
        table_clear(&mut self.labels);
        self.mentions.clear();
        assert(self@.mentions =~= Seq::empty());
        Ok(())
    }

    /// Whether `n` more bytes fit the program.
    fn has_room(&self, n: usize) -> (fits: bool)
        requires
            self@.buffer.len() <= REGION_SIZE,
        ensures
            fits == (self@.buffer.len() + n <= REGION_SIZE),
    {
        n <= REGION_SIZE - self.buffer.len()
    }

    /// Appends `code` to the program.
    fn emit(&mut self, code: &[u8])
        ensures
            final(self)@ == old(self)@.emit(code@),
    {
        append(&mut self.buffer, code);
    }

    /// Appends the placeholder of a displacement and records that it
    /// waits for the label `to`.
    fn jump_near(&mut self, to: &'static str)
        requires
            old(self)@.buffer.len() + FIELD <= REGION_SIZE,
        ensures
            final(self)@ == old(self)@.jump(Seq::empty(), to@),
    {
        let offset = self.buffer.len() as u64;
        self.emit(&[0, 0, 0, 0]);
        self.mentions.push((to, offset));
        proof {
            let goal = old(self)@.jump(Seq::empty(), to@);
            assert(self@.mentions =~= goal.mentions);
            assert(self@.buffer =~= goal.buffer);
        }
    }

    /// Encodes `instr` and appends it to the program.
    ///
    /// Fails with [`Error::Nyi`] if the instruction has no encoding for
    /// its operands, and with [`Error::Serialize`] if the program would
    /// outgrow a region; the session is then left as it was.
    pub fn serialize_instruction(&mut self, instr: Instruction) -> (done: Result<(), Error>)
        requires
            old(self)@.well_formed(),
        ensures
            final(self)@.well_formed(),
            match done {
                Ok(()) => old(self)@.has_room_for(instr) && final(self)@ == old(self)@.push(instr),
                Err(e) => final(self)@ == old(self)@ && e == (if encoding(instr) is None {
                    Error::Nyi
                } else {
                    Error::Serialize
                }) && !old(self)@.has_room_for(instr),
            },
    {
        match encode(&instr) {
            Err(e) => {
                return Err(e);
            },
            Ok(Encoded::Code(code)) => {
                if !self.has_room(code.len()) {
                    return Err(Error::Serialize);
                }
                self.emit(code.as_slice());
            },
            Ok(Encoded::Jump(opcode, to)) => {
                assert(opcode@.len() <= 2);
                if !self.has_room(opcode.len() + 4) {
                    return Err(Error::Serialize);
                }
                self.emit(opcode.as_slice());
                self.jump_near(to);
                proof {
                    let goal = old(self)@.jump(opcode@, to@);
                    assert(self@.mentions =~= goal.mentions);
                    assert(self@.buffer =~= goal.buffer);
                }
            },
            Ok(Encoded::Label(name)) => {
                let offset = self.buffer.len() as u64;
                table_define(&mut self.labels, name, offset);
            },
        }
        proof {
            lemma_push_well_formed(old(self)@, instr);
        }
        Ok(())
    }
}

} // verus!
