//! Note identifiers: MIDI numbers and note names, converted to
//! frequencies in milli-hertz.
//!
//! Equal temperament around A4 = MIDI 69 = 440 Hz. Semitone ratios are
//! fixed-point constants scaled by 2^20, so every frequency is an exact
//! integer function of the note; octaves of A stay exact (440000,
//! 880000, ...).

use vstd::prelude::*;
use vstd::arithmetic::div_mod::lemma_mod_multiples_vanish;
use vstd::arithmetic::power2::{lemma2_to64, lemma_pow2_adds, lemma_pow2_pos, lemma_pow2_strictly_increases, pow2};
use crate::fixed::pow2_u64;

verus! {

/// `2^(r/12)` scaled by 2^20 and rounded to nearest, for a semitone
/// offset `r` in `[0, 12)`.
pub open spec fn spec_semitone_ratio(r: int) -> int {
    if r == 0 {
        1048576
    } else if r == 1 {
        1110928
    } else if r == 2 {
        1176987
    } else if r == 3 {
        1246974
    } else if r == 4 {
        1321123
    } else if r == 5 {
        1399681
    } else if r == 6 {
        1482910
    } else if r == 7 {
        1571089
    } else if r == 8 {
        1664511
    } else if r == 9 {
        1763488
    } else if r == 10 {
        1868350
    } else {
        1979448
    }
}

fn semitone_ratio(r: u32) -> (v: u64)
    requires
        r < 12,
    ensures
        v == spec_semitone_ratio(r as int),
{
    match r {
        0 => 1048576,
        1 => 1110928,
        2 => 1176987,
        3 => 1246974,
        4 => 1321123,
        5 => 1399681,
        6 => 1482910,
        7 => 1571089,
        8 => 1664511,
        9 => 1763488,
        10 => 1868350,
        _ => 1979448,
    }
}

/// The frequency of a MIDI note in milli-hertz: 440 Hz at note 69,
/// moved by the semitone table within an octave and doubled or halved
/// per octave.
pub open spec fn spec_midi_freq(m: u8) -> u64 {
    let d = m as int - 69;
    let oct = d / 12;
    let r = d % 12;
    if oct >= 0 {
        ((440000 * spec_semitone_ratio(r) * (pow2(oct as nat) as int)) / 1048576) as u64
    } else {
        ((440000 * spec_semitone_ratio(r)) / (1048576 * (pow2((-oct) as nat) as int))) as u64
    }
}

/// Converts a MIDI note number to its frequency in milli-hertz.
pub fn midi_to_freq(midi: u8) -> (r: u64)
    ensures
        r == spec_midi_freq(midi),
{
    let e: u32 = midi as u32 + 3;
    let oct_s: u32 = e / 12;
    let sem: u32 = e % 12;
    let ratio: u64 = semitone_ratio(sem);
    let base: u64 = 440000 * ratio;
    proof {
        let d = midi as int - 69;
        assert(d / 12 == oct_s as int - 6 && d % 12 == sem as int);
        lemma2_to64();
    }
    if oct_s >= 6 {
        let p: u64 = pow2_u64(oct_s - 6);
        proof {
            if oct_s - 6 < 16 {
                lemma_pow2_strictly_increases((oct_s - 6) as nat, 16);
            }
            assert(base * p <= 870957120000 * 65536) by (nonlinear_arith)
                requires
                    base <= 870957120000,
                    p <= 65536,
            ;
        }
        (base * p) / 1048576
    } else {
        let p: u64 = pow2_u64(20 + (6 - oct_s));
        proof {
            lemma_pow2_adds(20, (6 - oct_s) as nat);
            lemma_pow2_strictly_increases((20 + (6 - oct_s)) as nat, 27);
            lemma_pow2_pos((20 + (6 - oct_s)) as nat);
        }
        base / p
    }
}

/// Pitch class 0..11 of a note letter with an optional accidental, per
/// the fixed table C=0 .. B=11 with sharps and flats; combinations
/// outside the table (such as E sharp) have none.
pub open spec fn spec_pitch_class(l: char, acc: Option<char>) -> Option<int> {
    match acc {
        Option::None => {
            if l == 'C' || l == 'c' {
                Option::Some(0int)
            } else if l == 'D' || l == 'd' {
                Option::Some(2int)
            } else if l == 'E' || l == 'e' {
                Option::Some(4int)
            } else if l == 'F' || l == 'f' {
                Option::Some(5int)
            } else if l == 'G' || l == 'g' {
                Option::Some(7int)
            } else if l == 'A' || l == 'a' {
                Option::Some(9int)
            } else if l == 'B' || l == 'b' {
                Option::Some(11int)
            } else {
                Option::None
            }
        },
        Option::Some(a) => {
            if a == '#' {
                if l == 'C' || l == 'c' {
                    Option::Some(1int)
                } else if l == 'D' || l == 'd' {
                    Option::Some(3int)
                } else if l == 'F' || l == 'f' {
                    Option::Some(6int)
                } else if l == 'G' || l == 'g' {
                    Option::Some(8int)
                } else if l == 'A' || l == 'a' {
                    Option::Some(10int)
                } else {
                    Option::None
                }
            } else if a == 'b' {
                if l == 'D' || l == 'd' {
                    Option::Some(1int)
                } else if l == 'E' || l == 'e' {
                    Option::Some(3int)
                } else if l == 'G' || l == 'g' {
                    Option::Some(6int)
                } else if l == 'A' || l == 'a' {
                    Option::Some(8int)
                } else if l == 'B' || l == 'b' {
                    Option::Some(10int)
                } else {
                    Option::None
                }
            } else {
                Option::None
            }
        },
    }
}

fn pitch_class(l: char, acc: Option<char>) -> (r: Option<u32>)
    ensures
        match spec_pitch_class(l, acc) {
            Option::Some(pc) => r == Option::Some(pc as u32) && 0 <= pc <= 11,
            Option::None => r is None,
        },
{
    match acc {
        Option::None => {
            if l == 'C' || l == 'c' {
                Option::Some(0)
            } else if l == 'D' || l == 'd' {
                Option::Some(2)
            } else if l == 'E' || l == 'e' {
                Option::Some(4)
            } else if l == 'F' || l == 'f' {
                Option::Some(5)
            } else if l == 'G' || l == 'g' {
                Option::Some(7)
            } else if l == 'A' || l == 'a' {
                Option::Some(9)
            } else if l == 'B' || l == 'b' {
                Option::Some(11)
            } else {
                Option::None
            }
        },
        Option::Some(a) => {
            if a == '#' {
                if l == 'C' || l == 'c' {
                    Option::Some(1)
                } else if l == 'D' || l == 'd' {
                    Option::Some(3)
                } else if l == 'F' || l == 'f' {
                    Option::Some(6)
                } else if l == 'G' || l == 'g' {
                    Option::Some(8)
                } else if l == 'A' || l == 'a' {
                    Option::Some(10)
                } else {
                    Option::None
                }
            } else if a == 'b' {
                if l == 'D' || l == 'd' {
                    Option::Some(1)
                } else if l == 'E' || l == 'e' {
                    Option::Some(3)
                } else if l == 'G' || l == 'g' {
                    Option::Some(6)
                } else if l == 'A' || l == 'a' {
                    Option::Some(8)
                } else if l == 'B' || l == 'b' {
                    Option::Some(10)
                } else {
                    Option::None
                }
            } else {
                Option::None
            }
        },
    }
}

/// True when every character of `s` is a decimal digit.
pub open spec fn spec_all_digits(s: Seq<char>) -> bool {
    forall|i: int| 0 <= i < s.len() ==> '0' <= #[trigger] s[i] <= '9'
}

/// The value of a sequence of decimal digits, most significant first.
pub open spec fn spec_digits_val(s: Seq<char>) -> int
    decreases s.len(),
{
    if s.len() == 0 {
        0
    } else {
        spec_digits_val(s.drop_last()) * 10 + (s.last() as int - '0' as int)
    }
}

/// A digit string's value is non-negative.
pub proof fn lemma_digits_val_nonneg(s: Seq<char>)
    requires
        spec_all_digits(s),
    ensures
        spec_digits_val(s) >= 0,
    decreases s.len(),
{
    if s.len() > 0 {
        assert(spec_all_digits(s.drop_last()));
        lemma_digits_val_nonneg(s.drop_last());
    }
}

/// The octave field parsed as a signed decimal integer: an optional
/// sign, then at least one digit, and a value that fits a 32-bit signed
/// integer; anything else has no value.
pub open spec fn spec_parse_octave(s: Seq<char>) -> Option<int> {
    if s.len() > 0 && (s[0] == '-' || s[0] == '+') {
        let ds = s.skip(1);
        if ds.len() > 0 && spec_all_digits(ds) {
            let v = spec_digits_val(ds);
            if s[0] == '-' {
                if v <= 2147483648 {
                    Option::Some(-v)
                } else {
                    Option::None
                }
            } else {
                if v <= 2147483647 {
                    Option::Some(v)
                } else {
                    Option::None
                }
            }
        } else {
            Option::None
        }
    } else {
        if s.len() > 0 && spec_all_digits(s) {
            let v = spec_digits_val(s);
            if v <= 2147483647 {
                Option::Some(v)
            } else {
                Option::None
            }
        } else {
            Option::None
        }
    }
}

/// The MIDI note named by a string: a letter (either case), an optional
/// accidental from the fixed table, and an octave number; the note
/// `(octave+1)*12 + pitch class` is reduced to the byte-sized note id
/// the engine uses. Empty strings, unknown letter/accidental pairs and
/// malformed octaves name nothing.
pub open spec fn spec_name_midi(s: Seq<char>) -> Option<u8> {
    if s.len() == 0 {
        Option::None
    } else {
        let has_acc = s.len() >= 2 && (s[1] == '#' || s[1] == 'b');
        let acc = if has_acc {
            Option::Some(s[1])
        } else {
            Option::<char>::None
        };
        let rest = if has_acc {
            s.skip(2)
        } else {
            s.skip(1)
        };
        match spec_pitch_class(s[0], acc) {
            Option::Some(pc) => match spec_parse_octave(rest) {
                Option::Some(oct) => Option::Some(((((oct + 1) * 12 + pc)) % 256) as u8),
                Option::None => Option::None,
            },
            Option::None => Option::None,
        }
    }
}

/// Converts a note name such as `A4` or `C#3` to its frequency in
/// milli-hertz, or nothing when the name is not in the table.
#[verifier::loop_isolation(false)]
pub fn name_to_freq(note: &str) -> (r: Option<u64>)
    ensures
        match spec_name_midi(note@) {
            Option::Some(m) => r == Option::Some(spec_midi_freq(m)),
            Option::None => r is None,
        },
{
    let len = note.unicode_len();
    if len == 0 {
        return Option::None;
    }
    let letter = note.get_char(0);
    let has_acc: bool = if len >= 2 {
        let c = note.get_char(1);
        c == '#' || c == 'b'
    } else {
        false
    };
    let acc: Option<char> = if has_acc {
        Option::Some(note.get_char(1))
    } else {
        Option::None
    };
    let pc: u32 = match pitch_class(letter, acc) {
        Option::Some(pc) => pc,
        Option::None => {
            return Option::None;
        },
    };
    let start: usize = if has_acc {
        2
    } else {
        1
    };
    let ghost rest = if has_acc {
        note@.skip(2)
    } else {
        note@.skip(1)
    };
    if start >= len {
        proof {
            assert(rest.len() == 0);
        }
        return Option::None;
    }
    let first = note.get_char(start);
    let neg: bool = first == '-';
    let idx: usize = if first == '-' || first == '+' {
        start + 1
    } else {
        start
    };
    let ghost ds = note@.subrange(idx as int, len as int);
    proof {
        assert(ds =~= if first == '-' || first == '+' {
            rest.skip(1)
        } else {
            rest
        });
    }
    if idx >= len {
        return Option::None;
    }
    let mut i: usize = idx;
    let mut acc_v: u64 = 0;
    let mut too_big: bool = false;
    while i < len
        invariant
            idx <= i <= len,
            len == note@.len(),
            idx < len,
            ds == note@.subrange(idx as int, len as int),
            spec_all_digits(note@.subrange(idx as int, i as int)),
            !too_big ==> acc_v == spec_digits_val(note@.subrange(idx as int, i as int)) && acc_v
                <= 2147483648,
            too_big ==> spec_digits_val(note@.subrange(idx as int, i as int)) > 2147483648,
        decreases len - i,
    {
        let c = note.get_char(i);
        let cv = c as u32;
        if cv < 48 || cv > 57 {
            proof {
                assert(ds[i - idx] == c);
                assert(!spec_all_digits(ds));
            }
            return Option::None;
        }
        let ghost pre_seq = note@.subrange(idx as int, i as int);
        let ghost cur_seq = note@.subrange(idx as int, (i + 1) as int);
        proof {
            assert(cur_seq.drop_last() =~= pre_seq);
            assert(cur_seq.last() == note@[i as int]);
            lemma_digits_val_nonneg(pre_seq);
        }
        if too_big {
            proof {
                lemma_digits_val_nonneg(cur_seq);
                assert(spec_digits_val(cur_seq) == spec_digits_val(pre_seq) * 10 + (c as int
                    - '0' as int));
            }
        } else {
            let nv: u64 = acc_v * 10 + (cv - 48) as u64;
            if nv > 2147483648 {
                too_big = true;
                acc_v = 0;
            } else {
                acc_v = nv;
            }
        }
        i = i + 1;
    }
    proof {
        assert(note@.subrange(idx as int, len as int) =~= ds);
    }
    if too_big {
        proof {
            lemma_digits_val_nonneg(ds);
        }
        return Option::None;
    }
    if !neg && acc_v > 2147483647 {
        return Option::None;
    }
    let oct: i64 = if neg {
        -(acc_v as i64)
    } else {
        acc_v as i64
    };
    let midi_i: i64 = (oct + 1) * 12 + (pc as i64);
    let shifted: u64 = (midi_i + 26843545600) as u64;
    let m: u8 = (shifted % 256) as u8;
    proof {
        lemma_mod_multiples_vanish(104857600, midi_i as int, 256);
    }
    Option::Some(midi_to_freq(m))
}

} // verus!
