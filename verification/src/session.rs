//! The mathematical model of an assembly session.
//!
//! A [`Session`] is what an assembler holds: the program so far, the
//! labels defined in it and the jumps that still wait for their target.
//! The functions here say how pushing an instruction and resolving the
//! labels change a session; the assembler is verified against them.

use vstd::prelude::*;
use crate::defs::{Instruction, Operand};
use crate::decode::{lemma_read_imm32, read_i32};
use crate::encoding::{
    defined_label, encoding, imm32, jump_parts, le_bytes4, mentioned_label, placeholder,
};
use crate::x64::REGION_SIZE;

verus! {

/// The width of a jump's displacement field, in bytes.
pub const FIELD: u64 = 4;

/// The displacement that takes a jump to the offset `defined`, when the
/// displacement field of the jump starts at offset `mention`.  The
/// processor counts from the end of the field.
pub open spec fn displacement(defined: int, mention: int) -> int {
    defined - mention - FIELD
}

/// The state of an assembly session.
pub struct Session {
    /// Where each label is defined: name to offset in `buffer`.
    pub labels: Map<Seq<char>, u64>,
    /// The jumps to labels: the name of the label and the offset in
    /// `buffer` at which the displacement field starts.
    pub mentions: Seq<(Seq<char>, u64)>,
    /// The machine code emitted so far.
    pub buffer: Seq<u8>,
}

impl Session {
    /// The session before anything is pushed.
    pub open spec fn empty() -> Session {
        Session { labels: Map::empty(), mentions: Seq::empty(), buffer: Seq::empty() }
    }

    /// The program fits a region, every label points into the program,
    /// and the displacement fields lie in the program, in order and
    /// apart from each other.
    pub open spec fn well_formed(self) -> bool {
        &&& self.buffer.len() <= REGION_SIZE
        &&& forall|name: Seq<char>| #[trigger]
            self.labels.contains_key(name) ==> self.labels[name] <= self.buffer.len()
        &&& forall|i: int|
            0 <= i < self.mentions.len() ==> (#[trigger] self.mentions[i]).1 + FIELD
                <= self.buffer.len()
        &&& forall|i: int, j: int|
            0 <= i < j < self.mentions.len() ==> (#[trigger] self.mentions[i]).1 + FIELD <= (
            #[trigger] self.mentions[j]).1
    }

    /// There is room in the program for the code of `instr`.
    pub open spec fn has_room_for(self, instr: Instruction) -> bool {
        encoding(instr) matches Some(code) && self.buffer.len() + code.len() <= REGION_SIZE
    }

    /// The session with `code` appended to the program.
    pub open spec fn emit(self, code: Seq<u8>) -> Session {
        Session { buffer: self.buffer + code, ..self }
    }

    /// The session with label `name` defined at the end of the program.
    pub open spec fn define(self, name: Seq<char>) -> Session {
        Session { labels: self.labels.insert(name, self.buffer.len() as u64), ..self }
    }

    /// The session with a jump to label `name` appended: the opcode of
    /// the jump, then the placeholder of its displacement, which is
    /// recorded as a mention.
    pub open spec fn jump(self, opcode: Seq<u8>, name: Seq<char>) -> Session {
        Session {
            mentions: self.mentions.push((name, (self.buffer.len() + opcode.len()) as u64)),
            buffer: self.buffer + (opcode + placeholder()),
            ..self
        }
    }

    /// The session after `instr` has been pushed: its code is appended; a
    /// label definition records the offset at which it stands; a jump to a
    /// label records where its displacement field starts.
    pub open spec fn push(self, instr: Instruction) -> Session {
        if let Some(name) = defined_label(instr) {
            self.define(name)
        } else if let Some(name) = mentioned_label(instr) {
            self.jump(jump_parts(instr).unwrap().0, name)
        } else {
            self.emit(encoding(instr).unwrap())
        }
    }

    /// Every label that a jump mentions is defined.
    pub open spec fn resolvable(self) -> bool {
        forall|i: int|
            0 <= i < self.mentions.len() ==> self.labels.contains_key(
                (#[trigger] self.mentions[i]).0,
            )
    }

    /// Offset `k` lies in the displacement field of mention `i`.
    pub open spec fn in_field(self, i: int, k: int) -> bool {
        self.mentions[i].1 <= k < self.mentions[i].1 + FIELD
    }

    /// Offset `k` lies in none of the displacement fields of the first `n`
    /// mentions.
    pub open spec fn outside_fields(self, n: int, k: int) -> bool {
        forall|i: int| 0 <= i < n ==> !#[trigger] self.in_field(i, k)
    }

    /// The displacement that mention `i` must carry.
    pub open spec fn displacement_of(self, i: int) -> int {
        displacement(self.labels[self.mentions[i].0] as int, self.mentions[i].1 as int)
    }

    /// `patched` is the program of this session with the displacement
    /// fields of the first `n` mentions filled in, and is otherwise
    /// untouched.
    pub open spec fn relocated_upto(self, n: int, patched: Seq<u8>) -> bool {
        &&& patched.len() == self.buffer.len()
        &&& forall|i: int|
            0 <= i < n ==> patched.subrange(
                self.mentions[i].1 as int,
                self.mentions[i].1 + FIELD,
            ) == imm32(#[trigger] self.displacement_of(i))
        &&& forall|k: int|
            0 <= k < patched.len() && self.outside_fields(n, k) ==> #[trigger] patched[k]
                == self.buffer[k]
    }

    /// `patched` is the program of this session with every displacement
    /// field filled in.
    pub open spec fn relocated(self, patched: Seq<u8>) -> bool {
        self.relocated_upto(self.mentions.len() as int, patched)
    }

    /// `after` is this session once its labels are resolved: every
    /// displacement field is filled in, and the label table and the
    /// mentions are used up.
    pub open spec fn resolved(self, after: Session) -> bool {
        &&& self.relocated(after.buffer)
        &&& after.labels == Map::<Seq<char>, u64>::empty()
        &&& after.mentions == Seq::<(Seq<char>, u64)>::empty()
    }
}

/// Appending code that fits keeps a session well formed.
pub proof fn lemma_emit_well_formed(s: Session, code: Seq<u8>)
    requires
        s.well_formed(),
        s.buffer.len() + code.len() <= REGION_SIZE,
    ensures
        s.emit(code).well_formed(),
{
    let after = s.emit(code);
    assert forall|name: Seq<char>| #[trigger] after.labels.contains_key(name) implies after.labels[name]
        <= after.buffer.len() by {
        assert(s.labels.contains_key(name));
    }
    assert forall|i: int| 0 <= i < after.mentions.len() implies (#[trigger] after.mentions[i]).1
        + FIELD <= after.buffer.len() by {
        assert(s.mentions[i].1 + FIELD <= s.buffer.len());
    }
}

/// Filling in the field of mention `n` extends a relocation of the first
/// `n` mentions to one of the first `n + 1`.
pub proof fn lemma_field_patched(s: Session, n: int, current: Seq<u8>, next: Seq<u8>)
    requires
        s.well_formed(),
        0 <= n < s.mentions.len(),
        s.relocated_upto(n, current),
        next.len() == current.len(),
        next.subrange(s.mentions[n].1 as int, s.mentions[n].1 + FIELD) == imm32(
            s.displacement_of(n),
        ),
        forall|k: int| 0 <= k < next.len() && !s.in_field(n, k) ==> next[k] == current[k],
    ensures
        s.relocated_upto(n + 1, next),
{
    assert forall|i: int| 0 <= i < n + 1 implies next.subrange(
        s.mentions[i].1 as int,
        s.mentions[i].1 + FIELD,
    ) == imm32(#[trigger] s.displacement_of(i)) by {
        if i < n {
            assert(s.mentions[i].1 + FIELD <= s.mentions[n].1);
            assert(next.subrange(s.mentions[i].1 as int, s.mentions[i].1 + FIELD)
                =~= current.subrange(s.mentions[i].1 as int, s.mentions[i].1 + FIELD)) by {
                assert forall|k: int| s.mentions[i].1 <= k < s.mentions[i].1 + FIELD implies next[k]
                    == current[k] by {
                    assert(!s.in_field(n, k));
                }
            }
        }
    }
    assert forall|k: int| 0 <= k < next.len() && s.outside_fields(n + 1, k) implies #[trigger] next[k]
        == s.buffer[k] by {
        assert(!s.in_field(n, k));
        assert(s.outside_fields(n, k));
    }
}

/// Once the labels are resolved, every jump lands on its label.  The
/// displacement field of each mention holds, as the processor reads it,
/// the distance from the end of the field to the place where the label
/// is defined, `D - M - 4` for a definition at `D` and a field at `M`.
/// This is so for a label ahead of the jump and for one behind it.
pub proof fn lemma_jump_reaches_label(before: Session, after: Session, i: int)
    requires
        before.well_formed(),
        before.resolvable(),
        before.resolved(after),
        0 <= i < before.mentions.len(),
    ensures
        ({
            let mention = before.mentions[i].1 as int;
            let defined = before.labels[before.mentions[i].0] as int;
            let field = after.buffer.subrange(mention, mention + FIELD);
            &&& field == imm32(defined - mention - 4)
            &&& read_i32(field) == defined - mention - 4
            &&& mention + FIELD + read_i32(field) == defined
        }),
{
    let mention = before.mentions[i].1 as int;
    let defined = before.labels[before.mentions[i].0] as int;
    assert(before.labels.contains_key(before.mentions[i].0));
    assert(after.buffer.subrange(mention, mention + FIELD) == imm32(before.displacement_of(i)));
    lemma_read_imm32(displacement(defined, mention));
}

/// Pushing a jump to a label appends the opcode of the jump and four
/// zero bytes, records the offset of the first of the four with the
/// name of the label, and leaves the label table alone.
pub proof fn lemma_push_jump(s: Session, instr: Instruction)
    requires
        mentioned_label(instr) is Some,
    ensures
        ({
            let opcode = jump_parts(instr).unwrap().0;
            let name = mentioned_label(instr).unwrap();
            &&& s.push(instr).labels == s.labels
            &&& s.push(instr).mentions == s.mentions.push(
                (name, (s.buffer.len() + opcode.len()) as u64),
            )
            &&& s.push(instr).buffer == s.buffer + opcode + seq![0u8, 0u8, 0u8, 0u8]
            &&& encoding(instr) == Some(opcode + seq![0u8, 0u8, 0u8, 0u8])
        }),
{
    let opcode = jump_parts(instr).unwrap().0;
    assert(s.buffer + (opcode + placeholder()) =~= s.buffer + opcode + seq![0u8, 0u8, 0u8, 0u8]);
}

/// Pushing an unconditional jump to the label `to` appends `e9` and the
/// placeholder; the mention stands one byte after the old end of the
/// program.  Pushing a jump-if-not-equal appends `0f 85` and the
/// placeholder; the mention stands two bytes after the old end.
pub proof fn lemma_push_jmp_jne(s: Session, to: &'static str)
    ensures
        s.push(Instruction::Jmp(Operand::Lbl(to))) == (Session {
            labels: s.labels,
            mentions: s.mentions.push((to@, (s.buffer.len() + 1) as u64)),
            buffer: s.buffer + seq![0xe9u8, 0u8, 0u8, 0u8, 0u8],
        }),
        s.push(Instruction::Jne(Operand::Lbl(to))) == (Session {
            labels: s.labels,
            mentions: s.mentions.push((to@, (s.buffer.len() + 2) as u64)),
            buffer: s.buffer + seq![0x0fu8, 0x85u8, 0u8, 0u8, 0u8, 0u8],
        }),
{
    assert(s.buffer + (seq![0xe9u8] + placeholder()) =~= s.buffer + seq![
        0xe9u8,
        0u8,
        0u8,
        0u8,
        0u8,
    ]);
    assert(s.buffer + (seq![0x0fu8, 0x85u8] + placeholder()) =~= s.buffer + seq![
        0x0fu8,
        0x85u8,
        0u8,
        0u8,
        0u8,
        0u8,
    ]);
}

/// Pushing an instruction that is neither a jump nor a label definition
/// appends its code and leaves the labels and the mentions alone.
/// Pushing a label definition records the end of the program under the
/// name and leaves the program and the mentions alone.
pub proof fn lemma_push_plain(s: Session, instr: Instruction)
    requires
        jump_parts(instr) is None,
    ensures
        defined_label(instr) is None ==> s.push(instr) == (Session {
            buffer: s.buffer + encoding(instr).unwrap(),
            ..s
        }),
        defined_label(instr) matches Some(name) ==> s.push(instr) == (Session {
            labels: s.labels.insert(name, s.buffer.len() as u64),
            ..s
        }),
{
}

/// Resolving the labels of a well-formed session has one outcome: two
/// programs that both are relocations of the session are the same.
pub proof fn lemma_relocation_unique(s: Session, first: Seq<u8>, second: Seq<u8>)
    requires
        s.well_formed(),
        s.relocated(first),
        s.relocated(second),
    ensures
        first == second,
{
    let n = s.mentions.len() as int;
    assert forall|k: int| 0 <= k < first.len() implies first[k] == second[k] by {
        if s.outside_fields(n, k) {
        } else {
            let i = choose|i: int| 0 <= i < n && s.in_field(i, k);
            let start = s.mentions[i].1 as int;
            let field = imm32(s.displacement_of(i));
            assert(first.subrange(start, start + FIELD) == field);
            assert(second.subrange(start, start + FIELD) == field);
            assert(first[k] == first.subrange(start, start + FIELD)[k - start]);
            assert(second[k] == second.subrange(start, start + FIELD)[k - start]);
        }
    }
    assert(first =~= second);
}

/// Pushing an instruction for which there is room keeps a session well
/// formed.
pub proof fn lemma_push_well_formed(s: Session, instr: Instruction)
    requires
        s.well_formed(),
        s.has_room_for(instr),
    ensures
        s.push(instr).well_formed(),
{
    let after = s.push(instr);
    if let Some(name) = defined_label(instr) {
        assert forall|other: Seq<char>| #[trigger]
            after.labels.contains_key(other) implies after.labels[other] <= after.buffer.len() by {
            if other != name {
                assert(s.labels.contains_key(other));
            }
        }
    } else if let Some(name) = mentioned_label(instr) {
        let opcode = jump_parts(instr).unwrap().0;
        let at = (s.buffer.len() + opcode.len()) as u64;
        assert(encoding(instr).unwrap() == opcode + placeholder());
        assert forall|other: Seq<char>| #[trigger]
            after.labels.contains_key(other) implies after.labels[other] <= after.buffer.len() by {
            assert(s.labels.contains_key(other));
        }
        assert forall|i: int| 0 <= i < after.mentions.len() implies (#[trigger] after.mentions[i]).1
            + FIELD <= after.buffer.len() by {
            if i < s.mentions.len() {
                assert(s.mentions[i].1 + FIELD <= s.buffer.len());
            }
        }
        assert forall|i: int, j: int| 0 <= i < j < after.mentions.len() implies (
        #[trigger] after.mentions[i]).1 + FIELD <= (#[trigger] after.mentions[j]).1 by {
            assert(s.mentions[i].1 + FIELD <= s.buffer.len());
            if j < s.mentions.len() {
                assert(s.mentions[i].1 + FIELD <= s.mentions[j].1);
            }
        }
    } else {
        lemma_emit_well_formed(s, encoding(instr).unwrap());
    }
}

/// Computes the bytes of the displacement that takes a jump to `defined`,
/// when its displacement field starts at `mention`.  The field holds the
/// low 32 bits of the displacement.
pub fn displacement_bytes(defined: u64, mention: u64) -> (bytes: [u8; 4])
    ensures
        bytes@ == imm32(displacement(defined as int, mention as int)),
{
    let low: u64 = defined % 0x1_0000_0000;
    let back: u64 = mention % 0x1_0000_0000;
    let u: u64 = (low + 0x2_0000_0000 - back - FIELD) % 0x1_0000_0000;
    assert(u == displacement(defined as int, mention as int) % 0x1_0000_0000);
    let bytes: [u8; 4] = [
        (u % 0x100) as u8,
        (u / 0x100 % 0x100) as u8,
        (u / 0x1_0000 % 0x100) as u8,
        (u / 0x100_0000 % 0x100) as u8,
    ];
    assert(bytes@ =~= le_bytes4(u as int));
    bytes
}

} // verus!
