//! The CPU shell: registers, the two memory capabilities, the running flag
//! and the one-instruction prefix latches, with the fetch-decode-execute
//! loop on top.

use super::op::OpNullaryOp;
use super::register::initial_register;
use super::register::Register;
use super::register::RegisterWordType;
use crate::mem::byte_at;
use crate::mem::read_u8;
use crate::mem::Memory;
use vstd::prelude::*;

verus! {

/// The 20-bit physical address of a segment:offset pair; the carry beyond
/// bit 19 is discarded.
pub open spec fn phys(seg: u16, off: u16) -> int {
    (seg * 16 + off) % 0x100000
}

/// Compute the 20-bit physical address of a segment:offset pair.
pub fn segment_phys(seg: u16, off: u16) -> (r: usize)
    ensures
        r == phys(seg, off),
        r <= 0xFFFFF,
{
    let s = (seg as usize) << 4;
    proof {
        assert((seg as usize) << 4 == seg * 16) by (bit_vector);
    }
    let t = s + (off as usize);
    let r = t & 0xFFFFF;
    proof {
        assert(t & 0xFFFFF == t % 0x100000 && t & 0xFFFFF <= 0xFFFFF) by (bit_vector);
    }
    r
}

/// One logical 8086 processor: its register file, its memory and I/O-port
/// capabilities, the running flag cleared by `HLT`, and the one-instruction
/// segment-override and repeat latches.
pub struct CPU<M: Memory, P: Memory> {
    pub memory: M,
    pub io_ports: P,
    pub register: Register,
    pub running: bool,
    pub segment_selector: Option<RegisterWordType>,
    pub rep_selector: Option<OpNullaryOp>,
}

impl<M: Memory, P: Memory> CPU<M, P> {
    /// A processor over the given capabilities, at the boot state: registers
    /// zero except `CS = 0xFFFF`, running, no prefix latched.
    pub fn new(memory: M, io_ports: P) -> (r: CPU<M, P>)
        ensures
            r.memory == memory,
            r.io_ports == io_ports,
            r.register == initial_register(),
            r.running,
            r.segment_selector is None,
            r.rep_selector is None,
    {
        CPU {
            memory,
            io_ports,
            register: Register::new(),
            running: true,
            segment_selector: None,
            rep_selector: None,
        }
    }

    /// Point the processor at `seg:addr`.
    pub fn jmp(&mut self, seg: u16, addr: u16)
        ensures
            *final(self) == (CPU {
                register: Register { cs: seg, ip: addr, ..old(self).register },
                ..*old(self)
            }),
    {
        self.register.cs = seg;
        self.register.ip = addr;
    }

    /// Stop the processor: `step` will refuse to run.
    pub fn hlt(&mut self)
        ensures
            *final(self) == (CPU { running: false, ..*old(self) }),
    {
        self.running = false;
    }

    /// Let the processor run again.
    pub fn unhlt(&mut self)
        ensures
            *final(self) == (CPU { running: true, ..*old(self) }),
    {
        self.running = true;
    }

    /// The code bytes visible at `CS:IP`: a full fetch window, each byte
    /// taken at the 20-bit physical address of `CS:(IP + k)` with the offset
    /// wrapping at 16 bits.
    pub fn iter(&self) -> (it: CPUIterator)
        ensures
            it.pos == 0,
            it.bytes@ =~= fetch_window(*self),
    {
        let mut bytes: Vec<u8> = Vec::new();
        let mut k: usize = 0;
        while k < 6
            invariant
                k <= 6,
                bytes@.len() == k,
                forall|j: int|
                    0 <= j < k ==> #[trigger] bytes@[j] == fetch_window(*self)[j],
            decreases 6 - k,
        {
            let off = self.register.ip.wrapping_add(k as u16);
            let addr = segment_phys(self.register.cs, off);
            let b = read_u8(&self.memory, addr);
            bytes.push(b);
            k = k + 1;
        }
        CPUIterator { bytes, pos: 0 }
    }
}

/// The six code bytes a fetch at the current `CS:IP` can consume: byte `k`
/// sits at the physical address of `CS:(IP + k)`, offset wrapping at 16
/// bits. No 8086 instruction is longer than six bytes.
pub open spec fn fetch_window<M: Memory, P: Memory>(cpu: CPU<M, P>) -> Seq<u8> {
    Seq::new(6, |k: int| byte_at(cpu.memory, phys(cpu.register.cs, fetch_off(cpu.register.ip, k))))
}

/// The code offset `k` bytes past `ip`, wrapping at 16 bits.
pub open spec fn fetch_off(ip: u16, k: int) -> u16 {
    ((ip + k) % 0x10000) as u16
}

/// A cursor over a fetched code-byte window: the decoder pulls bytes from
/// it in order, and its final position tells how many bytes the instruction
/// consumed.
pub struct CPUIterator {
    pub bytes: Vec<u8>,
    pub pos: usize,
}

impl CPUIterator {
    /// A cursor at the start of a byte window.
    pub fn new(bytes: Vec<u8>) -> (it: CPUIterator)
        ensures
            it.bytes == bytes,
            it.pos == 0,
    {
        CPUIterator { bytes, pos: 0 }
    }

    /// The next code byte, if the window still holds one; consumes it.
    pub fn next(&mut self) -> (r: Option<u8>)
        ensures
            old(self).pos < old(self).bytes@.len() ==> r == Some(old(self).bytes@[old(self).pos as int])
                && final(self).pos == old(self).pos + 1,
            old(self).pos >= old(self).bytes@.len() ==> r is None && final(self).pos == old(
                self,
            ).pos,
            final(self).bytes == old(self).bytes,
    {
        if self.pos < self.bytes.len() {
            let b = self.bytes[self.pos];
            self.pos = self.pos + 1;
            Some(b)
        } else {
            None
        }
    }
}

/// What one fetch-decode-execute step does: nothing when halted; otherwise
/// `IP` advances over the consumed bytes and, when the bytes formed an
/// instruction, its effect applies. A decode fault leaves only the partial
/// fetch behind.
pub open spec fn step_rel<M: Memory, P: Memory>(pre: CPU<M, P>, post: CPU<M, P>) -> bool {
    if !pre.running {
        post == pre
    } else {
        let (decoded, consumed) = super::op::parse_op_spec(fetch_window(pre), 0);
        let fetched = CPU {
            register: Register {
                ip: fetch_off(pre.register.ip, consumed),
                ..pre.register
            },
            ..pre
        };
        match decoded {
            None => post == fetched,
            Some(op) => super::op_exec::exec_effect(fetched, post, op),
        }
    }
}

impl<M: Memory, P: Memory> CPU<M, P> {
    /// Decode the instruction at `CS:IP`, advancing `IP` over the bytes the
    /// decode consumed, also on a decode fault.
    pub fn next_op(&mut self) -> (r: Option<super::op::Op>)
        ensures
            ({
                let (decoded, consumed) = super::op::parse_op_spec(fetch_window(*old(self)), 0);
                &&& r == decoded
                &&& *final(self) == (CPU {
                    register: Register {
                        ip: fetch_off(old(self).register.ip, consumed),
                        ..old(self).register
                    },
                    ..*old(self)
                })
            }),
    {
        let mut it = self.iter();
        let r = super::op::parse_op(&mut it);
        let consumed = it.pos;
        proof {
            assert(consumed <= 6) by {
                assert(super::op::parse_op_spec(fetch_window(*self), 0).1 <= fetch_window(
                    *self,
                ).len()) by {
                    super::op::lemma_parse_consumed_bounds(fetch_window(*self), 0);
                }
            }
        }
        let ip0 = self.register.ip;
        let new_ip = ip0.wrapping_add(consumed as u16);
        proof {
            crate::mem::lemma_wrap_ops_u16();
        }
        self.register.ip = new_ip;
        r
    }

    /// Run one fetch-decode-execute step: nothing when halted or on a
    /// decode fault, else the decoded instruction's effect.
    pub fn step(&mut self) -> (r: Option<()>)
        ensures
            step_rel(*old(self), *final(self)),
            r is Some <==> (old(self).running && super::op::parse_op_spec(
                fetch_window(*old(self)),
                0,
            ).0 is Some),
    {
        if !self.running {
            return None;
        }
        let op = match self.next_op() {
            Some(op) => op,
            None => {
                return None;
            },
        };
        self.exec_op(&op);
        Some(())
    }

    /// Run fetch-decode-execute steps while the processor is running, up to
    /// the given bound; the bound keeps a host in charge of a program that
    /// never halts. The states passed through form a chain of single-step
    /// effects from the starting state to the final one, and the chain only
    /// ends early with the processor stopped: otherwise it is exactly the
    /// bound long.
    pub fn run(&mut self, max_steps: u64)
        ensures
            exists|trace: Seq<CPU<M, P>>|
                #![trigger trace.len()]
                {
                    &&& trace.len() >= 1
                    &&& trace[0] == *old(self)
                    &&& trace.last() == *final(self)
                    &&& forall|i: int|
                        0 <= i < trace.len() - 1 ==> #[trigger] step_rel(trace[i], trace[i + 1])
                    &&& (trace.last().running ==> trace.len() == max_steps + 1)
                },
    {
        let ghost mut trace: Seq<CPU<M, P>> = seq![*self];
        let mut steps: u64 = 0;
        while self.running && steps < max_steps
            invariant
                trace.len() >= 1,
                trace.len() == steps + 1,
                trace[0] == *old(self),
                trace.last() == *self,
                forall|i: int| 0 <= i < trace.len() - 1 ==> #[trigger] step_rel(trace[i], trace[i + 1]),
                steps <= max_steps,
            decreases max_steps - steps,
        {
            let ghost prev = *self;
            let r = self.step();
            proof {
                trace = trace.push(*self);
            }
            steps = steps + 1;
        }
    }
}

} // verus!
