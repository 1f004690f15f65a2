//! The static disassembler: a read-only listing of the loaded program, one
//! record per instruction word, rendered through the same field-extraction
//! rules the execution engine uses.

use vstd::prelude::*;

verus! {

use vstd::string::StrSliceExecFns;
use crate::cpu::CPU;
use crate::model::{
    Machine, op_family, op_x, op_y, op_nn, op_nnn, op_n, lemma_field_bounds, word_at,
};

/// One line of the listing: the address an instruction word was fetched
/// from, the raw word, and its rendered mnemonic.
pub struct Dissemble {
    pub memory_location: u16,
    pub opcode: u16,
    pub assembly: String,
}

/// The character for one digit, decimal or hexadecimal (upper case).
pub open spec fn digit_char(d: int) -> char {
    if d == 0 {
        '0'
    } else if d == 1 {
        '1'
    } else if d == 2 {
        '2'
    } else if d == 3 {
        '3'
    } else if d == 4 {
        '4'
    } else if d == 5 {
        '5'
    } else if d == 6 {
        '6'
    } else if d == 7 {
        '7'
    } else if d == 8 {
        '8'
    } else if d == 9 {
        '9'
    } else if d == 10 {
        'A'
    } else if d == 11 {
        'B'
    } else if d == 12 {
        'C'
    } else if d == 13 {
        'D'
    } else if d == 14 {
        'E'
    } else {
        'F'
    }
}

/// A value rendered in decimal, most significant digit first, no leading
/// zeros.
pub open spec fn spec_dec(v: int) -> Seq<char>
    decreases v,
{
    if v < 10 {
        seq![digit_char(v)]
    } else {
        spec_dec(v / 10).push(digit_char(v % 10))
    }
}

/// A value rendered in upper-case hexadecimal digits, no leading zeros.
pub open spec fn spec_hex(v: int) -> Seq<char>
    decreases v,
{
    if v < 16 {
        seq![digit_char(v)]
    } else {
        spec_hex(v / 16).push(digit_char(v % 16))
    }
}

/// A hexadecimal value with its customary prefix.
pub open spec fn spec_hex_lit(v: int) -> Seq<char> {
    "0x"@ + spec_hex(v)
}

/// The rendered mnemonic of an instruction word. Unrecognized words render
/// as an explicit placeholder; the decoder never fails.
pub open spec fn spec_assembly(op: u16) -> Seq<char> {
    let x = op_x(op) as int;
    let y = op_y(op) as int;
    let nn = op_nn(op) as int;
    let nnn = op_nnn(op) as int;
    let n = op_n(op) as int;
    let fam = op_family(op);
    if fam == 0x0000 {
        if op_nnn(op) == 0x0E0 {
            "ERASE"@
        } else if op_nnn(op) == 0x0EE {
            "Return"@
        } else {
            "NOP "@ + spec_hex_lit(nnn)
        }
    } else if fam == 0x1000 {
        "GOTO "@ + spec_hex_lit(nnn)
    } else if fam == 0x2000 {
        "DO "@ + spec_hex_lit(nnn)
    } else if fam == 0x3000 {
        "SKF V"@ + spec_dec(x) + "="@ + spec_hex_lit(nn)
    } else if fam == 0x4000 {
        "SKF V"@ + spec_dec(x) + "\u{2260}"@ + spec_hex_lit(nn)
    } else if fam == 0x5000 {
        "SKF V"@ + spec_dec(x) + "=V"@ + spec_dec(y)
    } else if fam == 0x6000 {
        "V"@ + spec_dec(x) + "="@ + spec_hex_lit(nn)
    } else if fam == 0x7000 {
        "V"@ + spec_dec(x) + "+="@ + spec_hex_lit(nn)
    } else if fam == 0x8000 {
        let sub = op & 0xF00F;
        if sub == 0x8000 {
            "V"@ + spec_dec(x) + "=V"@ + spec_dec(y)
        } else if sub == 0x8001 {
            "V"@ + spec_dec(x) + "|=V"@ + spec_dec(y)
        } else if sub == 0x8002 {
            "V"@ + spec_dec(x) + "&=V"@ + spec_dec(y)
        } else if sub == 0x8003 {
            "V"@ + spec_dec(x) + "^=V"@ + spec_dec(y)
        } else if sub == 0x8004 {
            "V"@ + spec_dec(x) + "+=V"@ + spec_dec(y)
        } else if sub == 0x8005 {
            "V"@ + spec_dec(x) + "-=V"@ + spec_dec(y)
        } else if sub == 0x8006 {
            "V"@ + spec_dec(x) + "=V"@ + spec_dec(y) + ">>1"@
        } else if sub == 0x8007 {
            "V"@ + spec_dec(x) + "=V"@ + spec_dec(y) + "-V"@ + spec_dec(x)
        } else if sub == 0x800E {
            "V"@ + spec_dec(x) + "=V"@ + spec_dec(y) + "<<1"@
        } else {
            spec_hex_lit(op as int) + " not handled yet"@
        }
    } else if fam == 0x9000 {
        "SKF V"@ + spec_dec(x) + "\u{2260}V"@ + spec_dec(y)
    } else if fam == 0xA000 {
        "I="@ + spec_hex_lit(nnn)
    } else if fam == 0xB000 {
        "GOTO V0+"@ + spec_hex_lit(nnn)
    } else if fam == 0xC000 {
        "V"@ + spec_dec(x) + "=RND."@ + spec_hex_lit(nn)
    } else if fam == 0xD000 {
        "Draw "@ + spec_dec(n) + " Rows @X"@ + spec_dec(x) + ",Y"@ + spec_dec(y)
    } else if fam == 0xE000 {
        let sub = op & 0xF0FF;
        if sub == 0xE09E {
            "SKF V"@ + spec_dec(x) + "=KEY"@
        } else if sub == 0xE0A1 {
            "SKF V"@ + spec_dec(x) + "\u{2260}KEY"@
        } else {
            "Not implemented yet"@
        }
    } else if fam == 0xF000 {
        let sub = op & 0xF0FF;
        if sub == 0xF007 {
            "V"@ + spec_dec(x) + "=TIME"@
        } else if sub == 0xF00A {
            "V"@ + spec_dec(x) + "=KEY"@
        } else if sub == 0xF015 {
            "TIME=V"@ + spec_dec(x)
        } else if sub == 0xF018 {
            "TONE=V"@ + spec_dec(x)
        } else if sub == 0xF01E {
            "I=I+V"@ + spec_dec(x)
        } else if sub == 0xF029 {
            "I=DSP,V"@ + spec_dec(x)
        } else if sub == 0xF033 {
            "MI=DEQ,V"@ + spec_dec(x)
        } else if sub == 0xF055 {
            "MI=V0:V"@ + spec_dec(x)
        } else if sub == 0xF065 {
            "V0:V"@ + spec_dec(x) + "=MI"@
        } else {
            "Not implemented yet"@
        }
    } else {
        "Not implemented yet"@
    }
}

/// The number of listing records for a given program size: one per two-byte
/// step from 0x200 up to the end of the program.
pub open spec fn listing_len(program_size: int) -> int {
    if program_size > 0x200 {
        (program_size - 0x200 + 1) / 2
    } else {
        0
    }
}

/// Relies on String's FromIterator over char: collecting the characters
/// yields the string holding exactly those characters, in order.
#[verifier::external_body]
fn chars_to_string(chars: &Vec<char>) -> (s: String)
    ensures
        s@ == chars@,
{
    chars.iter().collect()
}

/// The character for one digit below sixteen.
fn digit(d: u16) -> (c: char)
    requires
        d < 16,
    ensures
        c == digit_char(d as int),
{
    if d == 0 {
        '0'
    } else if d == 1 {
        '1'
    } else if d == 2 {
        '2'
    } else if d == 3 {
        '3'
    } else if d == 4 {
        '4'
    } else if d == 5 {
        '5'
    } else if d == 6 {
        '6'
    } else if d == 7 {
        '7'
    } else if d == 8 {
        '8'
    } else if d == 9 {
        '9'
    } else if d == 10 {
        'A'
    } else if d == 11 {
        'B'
    } else if d == 12 {
        'C'
    } else if d == 13 {
        'D'
    } else if d == 14 {
        'E'
    } else {
        'F'
    }
}

/// Append the characters of a string slice.
fn push_str_chars(out: &mut Vec<char>, s: &str)
    ensures
        final(out)@ == old(out)@ + s@,
{
    let n = s.unicode_len();
    let mut i: usize = 0;
    while i < n
        invariant
            n == s@.len(),
            i <= n,
            out@ == old(out)@ + s@.take(i as int),
        decreases n - i,
    {
        let c = s.get_char(i);
        out.push(c);
        proof {
            assert(out@ =~= old(out)@ + s@.take(i as int + 1));
        }
        i += 1;
    }
    proof {
        assert(out@ =~= old(out)@ + s@);
    }
}

/// Append a value in decimal.
fn push_dec(out: &mut Vec<char>, v: u16)
    ensures
        final(out)@ == old(out)@ + spec_dec(v as int),
    decreases v,
{
    if v < 10 {
        out.push(digit(v));
        proof {
            assert(out@ =~= old(out)@ + spec_dec(v as int));
        }
    } else {
        push_dec(out, v / 10);
        out.push(digit(v % 10));
        proof {
            assert(out@ =~= old(out)@ + spec_dec(v as int));
        }
    }
}

/// Append a value in prefixed hexadecimal.
fn push_hex_lit(out: &mut Vec<char>, v: u16)
    ensures
        final(out)@ == old(out)@ + spec_hex_lit(v as int),
{
    push_str_chars(out, "0x");
    push_hex(out, v);
    proof {
        assert(out@ =~= old(out)@ + spec_hex_lit(v as int));
    }
}

/// Append a value in bare hexadecimal digits.
fn push_hex(out: &mut Vec<char>, v: u16)
    ensures
        final(out)@ == old(out)@ + spec_hex(v as int),
    decreases v,
{
    if v < 16 {
        out.push(digit(v));
        proof {
            assert(out@ =~= old(out)@ + spec_hex(v as int));
        }
    } else {
        push_hex(out, v / 16);
        out.push(digit(v % 16));
        proof {
            assert(out@ =~= old(out)@ + spec_hex(v as int));
        }
    }
}

/// Decode one instruction word into a listing record: the operand fields are
/// extracted by the same rules the execution engine uses, and the mnemonic
/// never fails to render.
pub fn decode(opcode: u16, memory_location: u16) -> (r: Dissemble)
    ensures
        r.memory_location == memory_location,
        r.opcode == opcode,
        r.assembly@ == spec_assembly(opcode),
{
    let op = opcode;
    let nibble = op & 0xF000;
    let x: u8 = ((op & 0x0F00) >> 8u16) as u8;
    let y: u8 = ((op & 0x00F0) >> 4u16) as u8;
    let nn: u8 = (op & 0x00FF) as u8;
    let nnn: u16 = op & 0x0FFF;
    let n: u8 = (op & 0x000F) as u8;

    proof {
        lemma_field_bounds(op);
        assert(x as int == op_x(op) as int && x < 16);
        assert(y as int == op_y(op) as int && y < 16);
        assert(nn as int == op_nn(op) as int);
        assert(nnn == op_nnn(op));
        assert(n as int == op_n(op) as int && n < 16);
    }

    let mut cs: Vec<char> = Vec::new();

    match nibble {
        0x0000 => {
            if nnn == 0x00E0 {
                push_str_chars(&mut cs, "ERASE");
            } else if nnn == 0x00EE {
                push_str_chars(&mut cs, "Return");
            } else {
                push_str_chars(&mut cs, "NOP ");
                push_hex_lit(&mut cs, nnn);
            }
        },
        0x1000 => {
            push_str_chars(&mut cs, "GOTO ");
            push_hex_lit(&mut cs, nnn);
        },
        0x2000 => {
            push_str_chars(&mut cs, "DO ");
            push_hex_lit(&mut cs, nnn);
        },
        0x3000 => {
            push_str_chars(&mut cs, "SKF V");
            push_dec(&mut cs, x as u16);
            push_str_chars(&mut cs, "=");
            push_hex_lit(&mut cs, nn as u16);
        },
        0x4000 => {
            push_str_chars(&mut cs, "SKF V");
            push_dec(&mut cs, x as u16);
            push_str_chars(&mut cs, "\u{2260}");
            push_hex_lit(&mut cs, nn as u16);
        },
        0x5000 => {
            push_str_chars(&mut cs, "SKF V");
            push_dec(&mut cs, x as u16);
            push_str_chars(&mut cs, "=V");
            push_dec(&mut cs, y as u16);
        },
        0x6000 => {
            push_str_chars(&mut cs, "V");
            push_dec(&mut cs, x as u16);
            push_str_chars(&mut cs, "=");
            push_hex_lit(&mut cs, nn as u16);
        },
        0x7000 => {
            push_str_chars(&mut cs, "V");
            push_dec(&mut cs, x as u16);
            push_str_chars(&mut cs, "+=");
            push_hex_lit(&mut cs, nn as u16);
        },
        0x8000 => match op & 0xF00F {
            0x8000 => {
                push_str_chars(&mut cs, "V");
                push_dec(&mut cs, x as u16);
                push_str_chars(&mut cs, "=V");
                push_dec(&mut cs, y as u16);
            },
            0x8001 => {
                push_str_chars(&mut cs, "V");
                push_dec(&mut cs, x as u16);
                push_str_chars(&mut cs, "|=V");
                push_dec(&mut cs, y as u16);
            },
            0x8002 => {
                push_str_chars(&mut cs, "V");
                push_dec(&mut cs, x as u16);
                push_str_chars(&mut cs, "&=V");
                push_dec(&mut cs, y as u16);
            },
            0x8003 => {
                push_str_chars(&mut cs, "V");
                push_dec(&mut cs, x as u16);
                push_str_chars(&mut cs, "^=V");
                push_dec(&mut cs, y as u16);
            },
            0x8004 => {
                push_str_chars(&mut cs, "V");
                push_dec(&mut cs, x as u16);
                push_str_chars(&mut cs, "+=V");
                push_dec(&mut cs, y as u16);
            },
            0x8005 => {
                push_str_chars(&mut cs, "V");
                push_dec(&mut cs, x as u16);
                push_str_chars(&mut cs, "-=V");
                push_dec(&mut cs, y as u16);
            },
            0x8006 => {
                push_str_chars(&mut cs, "V");
                push_dec(&mut cs, x as u16);
                push_str_chars(&mut cs, "=V");
                push_dec(&mut cs, y as u16);
                push_str_chars(&mut cs, ">>1");
            },
            0x8007 => {
                push_str_chars(&mut cs, "V");
                push_dec(&mut cs, x as u16);
                push_str_chars(&mut cs, "=V");
                push_dec(&mut cs, y as u16);
                push_str_chars(&mut cs, "-V");
                push_dec(&mut cs, x as u16);
            },
            0x800E => {
                push_str_chars(&mut cs, "V");
                push_dec(&mut cs, x as u16);
                push_str_chars(&mut cs, "=V");
                push_dec(&mut cs, y as u16);
                push_str_chars(&mut cs, "<<1");
            },
            _ => {
                push_hex_lit(&mut cs, op);
                push_str_chars(&mut cs, " not handled yet");
            },
        },
        0x9000 => {
            push_str_chars(&mut cs, "SKF V");
            push_dec(&mut cs, x as u16);
            push_str_chars(&mut cs, "\u{2260}V");
            push_dec(&mut cs, y as u16);
        },
        0xA000 => {
            push_str_chars(&mut cs, "I=");
            push_hex_lit(&mut cs, nnn);
        },
        0xB000 => {
            push_str_chars(&mut cs, "GOTO V0+");
            push_hex_lit(&mut cs, nnn);
        },
        0xC000 => {
            push_str_chars(&mut cs, "V");
            push_dec(&mut cs, x as u16);
            push_str_chars(&mut cs, "=RND.");
            push_hex_lit(&mut cs, nn as u16);
        },
        0xD000 => {
            push_str_chars(&mut cs, "Draw ");
            push_dec(&mut cs, n as u16);
            push_str_chars(&mut cs, " Rows @X");
            push_dec(&mut cs, x as u16);
            push_str_chars(&mut cs, ",Y");
            push_dec(&mut cs, y as u16);
        },
        0xE000 => match op & 0xF0FF {
            0xE09E => {
                push_str_chars(&mut cs, "SKF V");
                push_dec(&mut cs, x as u16);
                push_str_chars(&mut cs, "=KEY");
            },
            0xE0A1 => {
                push_str_chars(&mut cs, "SKF V");
                push_dec(&mut cs, x as u16);
                push_str_chars(&mut cs, "\u{2260}KEY");
            },
            _ => {
                push_str_chars(&mut cs, "Not implemented yet");
            },
        },
        0xF000 => match op & 0xF0FF {
            0xF007 => {
                push_str_chars(&mut cs, "V");
                push_dec(&mut cs, x as u16);
                push_str_chars(&mut cs, "=TIME");
            },
            0xF00A => {
                push_str_chars(&mut cs, "V");
                push_dec(&mut cs, x as u16);
                push_str_chars(&mut cs, "=KEY");
            },
            0xF015 => {
                push_str_chars(&mut cs, "TIME=V");
                push_dec(&mut cs, x as u16);
            },
            0xF018 => {
                push_str_chars(&mut cs, "TONE=V");
                push_dec(&mut cs, x as u16);
            },
            0xF01E => {
                push_str_chars(&mut cs, "I=I+V");
                push_dec(&mut cs, x as u16);
            },
            0xF029 => {
                push_str_chars(&mut cs, "I=DSP,V");
                push_dec(&mut cs, x as u16);
            },
            0xF033 => {
                push_str_chars(&mut cs, "MI=DEQ,V");
                push_dec(&mut cs, x as u16);
            },
            0xF055 => {
                push_str_chars(&mut cs, "MI=V0:V");
                push_dec(&mut cs, x as u16);
            },
            0xF065 => {
                push_str_chars(&mut cs, "V0:V");
                push_dec(&mut cs, x as u16);
                push_str_chars(&mut cs, "=MI");
            },
            _ => {
                push_str_chars(&mut cs, "Not implemented yet");
            },
        },
        _ => {
            push_str_chars(&mut cs, "Not implemented yet");
        },
    }

    proof {
        assert(cs@ =~= spec_assembly(opcode));
    }

    let assembly = chars_to_string(&cs);
    Dissemble { memory_location, opcode, assembly }
}

/// Whether some listing record sits at the given address.
pub open spec fn has_location(items: Seq<Dissemble>, loc: u16) -> bool {
    exists|k: int| 0 <= k < items.len() && (#[trigger] items[k]).memory_location == loc
}

/// The first listing record at the given address.
pub open spec fn first_location_index(items: Seq<Dissemble>, loc: u16) -> int {
    choose|k: int|
        0 <= k < items.len() && (#[trigger] items[k]).memory_location == loc && (forall|j: int|
            0 <= j < k ==> (#[trigger] items[j]).memory_location != loc)
}

/// The scroll offset that keeps the record at the given address inside a
/// window of the given height: scrolled up to the record when it sits above
/// the window, down just far enough when it sits below, and unchanged when
/// it is already visible or when no record matches. Two rows of the height
/// are reserved for the window's borders.
pub fn scroll_to_location(
    items: &Vec<Dissemble>,
    loc: u16,
    offset: u16,
    visible_height: usize,
) -> (r: u16)
    requires
        items@.len() < 0x10000,
    ensures
        !has_location(items@, loc) ==> r == offset,
        has_location(items@, loc) ==> ({
            let idx = first_location_index(items@, loc);
            let avail = if visible_height > 2 { visible_height - 2 } else { 1 };
            &&& 0 <= idx < items@.len()
            &&& items@[idx].memory_location == loc
            &&& (forall|j: int| 0 <= j < idx ==> (#[trigger] items@[j]).memory_location != loc)
            &&& r == (if idx < offset {
                idx
            } else if idx >= offset + avail {
                idx - avail + 1
            } else {
                offset as int
            })
        }),
{
    let mut i: usize = 0;
    let mut found: Option<usize> = None;
    while i < items.len() && found.is_none()
        invariant
            i <= items@.len(),
            items@.len() < 0x10000,
            ((found is None) ==> forall|j: int|
                0 <= j < i ==> (#[trigger] items@[j]).memory_location != loc),
            (found matches Some(k) ==> k < i && items@[k as int].memory_location == loc && (
            forall|j: int| 0 <= j < k ==> (#[trigger] items@[j]).memory_location != loc)),
        decreases items@.len() - i,
    {
        if items[i].memory_location == loc {
            found = Some(i);
        }
        i += 1;
    }

    match found {
        None => {
            proof {
                assert(!has_location(items@, loc));
            }
            offset
        },
        Some(idx) => {
            proof {
                assert(has_location(items@, loc));
                let w = first_location_index(items@, loc);
                assert(items@[idx as int].memory_location == loc && (forall|j: int|
                    0 <= j < idx ==> (#[trigger] items@[j]).memory_location != loc));
                assert(0 <= w < items@.len() && items@[w].memory_location == loc && (forall|
                    j: int,
                |
                    0 <= j < w ==> (#[trigger] items@[j]).memory_location != loc));
                assert(w == idx as int);
            }
            let available_height = if visible_height > 2 {
                visible_height - 2
            } else {
                1
            };
            if idx < offset as usize {
                idx as u16
            } else if idx - offset as usize >= available_height {
                ((idx - available_height) + 1) as u16
            } else {
                offset
            }
        },
    }
}

impl CPU {
    /// List the loaded program: one record per two-byte step from 0x200 to
    /// the end of the program, each decoded from memory as the engine would
    /// fetch it. The walk leaves the program counter back at 0x200 and the
    /// opcode latch holding the last word listed; nothing else changes.
    pub fn disassemble_program(&mut self) -> (r: Vec<Dissemble>)
        requires
            old(self)@.wf(),
        ensures
            final(self)@.wf(),
            r@.len() == listing_len(old(self)@.program_size as int),
            forall|k: int|
                0 <= k < r@.len() ==> (#[trigger] r@[k]).memory_location == 0x200 + 2 * k
                    && r@[k].opcode == word_at(old(self)@.memory, 0x200 + 2 * k)
                    && r@[k].assembly@ == spec_assembly(word_at(old(self)@.memory, 0x200 + 2 * k)),
            final(self)@ == (Machine {
                opcode: final(self)@.opcode,
                program_counter: 0x200u16,
                ..old(self)@
            }),
            r@.len() > 0 ==> final(self)@.opcode == r@[r@.len() - 1].opcode,
            r@.len() == 0 ==> final(self)@.opcode == old(self)@.opcode,
    {
        let mut v: Vec<Dissemble> = Vec::new();

        let mut counter: u16 = 0x200;

        while counter < self.program_size
            invariant
                old(self)@.wf(),
                counter == 0x200 + 2 * v@.len(),
                v@.len() > 0 ==> counter - 2 < old(self)@.program_size,
                forall|k: int|
                    0 <= k < v@.len() ==> (#[trigger] v@[k]).memory_location == 0x200 + 2 * k
                        && v@[k].opcode == word_at(old(self)@.memory, 0x200 + 2 * k)
                        && v@[k].assembly@ == spec_assembly(
                        word_at(old(self)@.memory, 0x200 + 2 * k),
                    ),
                self@ == (Machine {
                    opcode: self@.opcode,
                    program_counter: self@.program_counter,
                    ..old(self)@
                }),
                v@.len() > 0 ==> self@.opcode == v@[v@.len() - 1].opcode,
                v@.len() == 0 ==> self@.opcode == old(self)@.opcode,
            decreases old(self)@.program_size + 2 - counter,
        {
            self.fetch_opcode(counter as usize);

            let diss = decode(self.opcode, counter);
            v.push(diss);
            counter += 2;
        }

        self.program_counter = 0x200;

        proof {
            assert(v@.len() == listing_len(old(self)@.program_size as int));
        }

        v
    }
}

} // verus!
