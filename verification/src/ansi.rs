//! The strict ANSI escape interpreter: turns a byte string into the events
//! it denotes, or reports it malformed.
//!
//! Where the writer quietly marks a bad sequence on the screen and carries
//! on, this interpreter accepts no fault: a stray escape, an unsupported
//! sequence, an unparsable or unsupported argument all fail the whole
//! string.  The surrounding
//! program renders the events — or treats the failure as fatal.

use vstd::prelude::*;

use crate::vga::{Ansi, spec_split, split};

verus! {

/// One thing an ANSI string asks for.
#[derive(Clone, Copy, Debug, PartialEq, Eq, Structural)]
pub enum AnsiEvent {
    /// A regular byte to print.
    Text(u8),
    /// Cursor update position: a one-based row and column.
    CursorTo(u8, u8),
    /// Select graphic rendition: reset to the default style.
    Reset,
    /// Select graphic rendition: increased intensity.
    Intensity,
    /// Select graphic rendition: a foreground color digit, 0 through 7.
    Foreground(u8),
    /// Select graphic rendition: a background color digit, 0 through 7.
    Background(u8),
}

/// The events of the SGR codes from `codes[i]` on: 1 is intensity, 30
/// through 37 a foreground color, 40 through 47 a background color;
/// anything else, or an unparsable code, fails.
pub open spec fn spec_sgr_events(codes: Seq<Option<u8>>, i: int) -> Option<Seq<AnsiEvent>>
    decreases codes.len() - i,
{
    if i < 0 || i >= codes.len() {
        Some(Seq::empty())
    } else {
        let e = match codes[i] {
            Some(n) => {
                if n == 1 {
                    Some(AnsiEvent::Intensity)
                } else if 30 <= n <= 37 {
                    Some(AnsiEvent::Foreground((n - 30) as u8))
                } else if 40 <= n <= 47 {
                    Some(AnsiEvent::Background((n - 40) as u8))
                } else {
                    None
                }
            },
            None => None,
        };
        match e {
            None => None,
            Some(ev) => match spec_sgr_events(codes, i + 1) {
                None => None,
                Some(rest) => Some(seq![ev] + rest),
            },
        }
    }
}

/// The events of one CSI sequence: `m` selects graphic rendition — no
/// arguments, or the single argument 0, reset the style — and `H` moves
/// the cursor to the row and column given by exactly two arguments.  Any
/// other final byte or argument shape fails.
pub open spec fn spec_csi_events(fin: u8, args: Seq<u8>) -> Option<Seq<AnsiEvent>> {
    if fin == 109 {
        if args.len() == 0 || args == seq![48u8] {
            Some(seq![AnsiEvent::Reset])
        } else {
            spec_sgr_events(spec_split(args, 59), 0)
        }
    } else if fin == 72 {
        let parsed = spec_split(args, 59);
        if parsed.len() == 2 && (parsed[0] matches Some(r) && parsed[1] is Some) {
            Some(seq![AnsiEvent::CursorTo(parsed[0]->Some_0, parsed[1]->Some_0)])
        } else {
            None
        }
    } else {
        None
    }
}

/// The events of the bytes of `s` from index `i` on, scanned in `state`
/// with the current sequence's arguments starting at `arg_start`; `None`
/// where the string is malformed.  A sequence still open at the end of the
/// string is dropped without fault.
pub open spec fn spec_ansi_events(s: Seq<u8>, i: int, state: Ansi, arg_start: int) -> Option<
    Seq<AnsiEvent>,
>
    decreases s.len() - i,
{
    if i < 0 || i >= s.len() {
        Some(Seq::empty())
    } else {
        let b = s[i];
        match state {
            Ansi::Start => {
                if b == 27 {
                    spec_ansi_events(s, i + 1, Ansi::Esc, arg_start)
                } else {
                    match spec_ansi_events(s, i + 1, Ansi::Start, arg_start) {
                        None => None,
                        Some(rest) => Some(seq![AnsiEvent::Text(b)] + rest),
                    }
                }
            },
            Ansi::Esc => {
                if b == 91 {
                    spec_ansi_events(s, i + 1, Ansi::Csi, i + 1)
                } else {
                    None
                }
            },
            Ansi::Csi => {
                if 0x20 <= b <= 0x3f {
                    spec_ansi_events(s, i + 1, Ansi::Csi, arg_start)
                } else if 0x40 <= b <= 0x7e {
                    match spec_csi_events(b, s.subrange(arg_start, i)) {
                        None => None,
                        Some(es) => match spec_ansi_events(s, i + 1, Ansi::Start, arg_start) {
                            None => None,
                            Some(rest) => Some(es + rest),
                        },
                    }
                } else {
                    None
                }
            },
        }
    }
}

/// The events of one SGR argument list `s[from..to]`, split at semicolons
/// and read code by code; `None` on the first unsupported or unparsable
/// code.
fn sgr_events(s: &[u8], from: usize, to: usize) -> (r: Option<Vec<AnsiEvent>>)
    requires
        from <= to <= s@.len(),
    ensures
        r is Some <==> spec_sgr_events(spec_split(s@.subrange(from as int, to as int), 59), 0)
            is Some,
        r matches Some(es) ==> Some(es@) == spec_sgr_events(
            spec_split(s@.subrange(from as int, to as int), 59),
            0,
        ),
{
    let codes = split(s, from, to, 59);
    let n = codes.len();
    let mut out: Vec<AnsiEvent> = Vec::new();
    let mut i: usize = 0;
    while i < n
        invariant
            i <= n,
            n == codes@.len(),
            from <= to <= s@.len(),
            codes@ == spec_split(s@.subrange(from as int, to as int), 59),
            spec_sgr_events(codes@, 0) is Some <==> spec_sgr_events(codes@, i as int) is Some,
            spec_sgr_events(codes@, 0) matches Some(whole) ==> (spec_sgr_events(codes@, i as int)
                matches Some(rest) && whole == out@ + rest),
        decreases n - i,
    {
        let e = match codes[i] {
            Some(c) => {
                if c == 1 {
                    AnsiEvent::Intensity
                } else if 30 <= c && c <= 37 {
                    AnsiEvent::Foreground(c - 30)
                } else if 40 <= c && c <= 47 {
                    AnsiEvent::Background(c - 40)
                } else {
                    proof {
                        assert(spec_sgr_events(codes@, i as int) is None);
                    }
                    return None;
                }
            },
            None => {
                proof {
                    assert(spec_sgr_events(codes@, i as int) is None);
                }
                return None;
            },
        };
        out.push(e);
        proof {
            if spec_sgr_events(codes@, 0) is Some {
                let whole = spec_sgr_events(codes@, 0)->Some_0;
                let rest = spec_sgr_events(codes@, i as int)->Some_0;
                let rest2 = spec_sgr_events(codes@, i as int + 1)->Some_0;
                assert(rest =~= seq![e] + rest2);
                assert(out@ + rest2 =~= whole);
            }
        }
        i = i + 1;
    }
    Some(out)
}

/// Interprets a whole byte string: the events it denotes, oldest first, or
/// `None` exactly where the strict scanner would give up — a stray escape,
/// an unsupported sequence, a bad argument.
pub fn parse_ansi(s: &[u8]) -> (r: Option<Vec<AnsiEvent>>)
    ensures
        r is Some <==> spec_ansi_events(s@, 0, Ansi::Start, 0) is Some,
        r matches Some(es) ==> Some(es@) == spec_ansi_events(s@, 0, Ansi::Start, 0),
{
    let mut out: Vec<AnsiEvent> = Vec::new();
    let mut state = Ansi::Start;
    let mut arg_start: usize = 0;
    let mut i: usize = 0;
    let n = s.len();
    while i < n
        invariant
            i <= n,
            n == s@.len(),
            arg_start <= n,
            state is Csi ==> arg_start <= i,
            spec_ansi_events(s@, 0, Ansi::Start, 0) is Some <==> spec_ansi_events(
                s@,
                i as int,
                state,
                arg_start as int,
            ) is Some,
            spec_ansi_events(s@, 0, Ansi::Start, 0) matches Some(whole) ==> (spec_ansi_events(
                s@,
                i as int,
                state,
                arg_start as int,
            ) matches Some(rest) && whole == out@ + rest),
        decreases n - i,
    {
        let b = s[i];
        match state {
            Ansi::Start => {
                if b == 27 {
                    state = Ansi::Esc;
                } else {
                    out.push(AnsiEvent::Text(b));
                    proof {
                        if spec_ansi_events(s@, 0, Ansi::Start, 0) is Some {
                            let whole = spec_ansi_events(s@, 0, Ansi::Start, 0)->Some_0;
                            let rest = spec_ansi_events(
                                s@,
                                i as int,
                                Ansi::Start,
                                arg_start as int,
                            )->Some_0;
                            let rest2 = spec_ansi_events(
                                s@,
                                i as int + 1,
                                Ansi::Start,
                                arg_start as int,
                            )->Some_0;
                            assert(rest =~= seq![AnsiEvent::Text(b)] + rest2);
                            assert(out@ + rest2 =~= whole);
                        }
                    }
                }
            },
            Ansi::Esc => {
                if b == 91 {
                    state = Ansi::Csi;
                    arg_start = i + 1;
                } else {
                    return None;
                }
            },
            Ansi::Csi => {
                if 0x20 <= b && b <= 0x3f {
                } else if 0x40 <= b && b <= 0x7e {
                    let es = csi_events(b, s, arg_start, i);
                    match es {
                        Some(mut evts) => {
                            proof {
                                if spec_ansi_events(s@, 0, Ansi::Start, 0) is Some {
                                    let whole = spec_ansi_events(s@, 0, Ansi::Start, 0)->Some_0;
                                    let rest = spec_ansi_events(
                                        s@,
                                        i as int,
                                        Ansi::Csi,
                                        arg_start as int,
                                    )->Some_0;
                                    let rest2 = spec_ansi_events(
                                        s@,
                                        i as int + 1,
                                        Ansi::Start,
                                        arg_start as int,
                                    )->Some_0;
                                    assert(rest =~= evts@ + rest2);
                                    assert((out@ + evts@) + rest2 =~= whole);
                                }
                            }
                            out.append(&mut evts);
                            state = Ansi::Start;
                        },
                        None => {
                            return None;
                        },
                    }
                } else {
                    return None;
                }
            },
        }
        i = i + 1;
    }
    Some(out)
}

/// The events of one CSI sequence with argument bytes `s[from..to]`.
fn csi_events(fin: u8, s: &[u8], from: usize, to: usize) -> (r: Option<Vec<AnsiEvent>>)
    requires
        from <= to <= s@.len(),
    ensures
        r is Some <==> spec_csi_events(fin, s@.subrange(from as int, to as int)) is Some,
        r matches Some(es) ==> Some(es@) == spec_csi_events(
            fin,
            s@.subrange(from as int, to as int),
        ),
{
    let ghost args = s@.subrange(from as int, to as int);
    if fin == 109 {
        if to == from || (to - from == 1 && s[from] == 48) {
            proof {
                if to != from {
                    assert(args =~= seq![48u8]);
                }
            }
            let mut out: Vec<AnsiEvent> = Vec::new();
            out.push(AnsiEvent::Reset);
            proof {
                assert(out@ =~= seq![AnsiEvent::Reset]);
            }
            Some(out)
        } else {
            proof {
                if args.len() == 1 {
                    assert(args[0] == s@[from as int]);
                    assert(args != seq![48u8]) by {
                        if args == seq![48u8] {
                            assert(args[0] == 48);
                        }
                    }
                }
            }
            sgr_events(s, from, to)
        }
    } else if fin == 72 {
        let parsed = split(s, from, to, 59);
        if parsed.len() == 2 {
            match (parsed[0], parsed[1]) {
                (Some(r), Some(c)) => {
                    let mut out: Vec<AnsiEvent> = Vec::new();
                    out.push(AnsiEvent::CursorTo(r, c));
                    proof {
                        assert(out@ =~= seq![AnsiEvent::CursorTo(r, c)]);
                    }
                    Some(out)
                },
                _ => None,
            }
        } else {
            None
        }
    } else {
        None
    }
}

} // verus!
