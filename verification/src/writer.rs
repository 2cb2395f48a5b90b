//! Animated text output, described rather than performed.
//!
//! Playing a line turns it into a list of effects — print this, rest that
//! long — that the host carries out in order.  Four glyphs are special:
//! an hourglass rests without printing, a left arrow prints a backspace,
//! and two triangle glyphs change the per-character pacing.  A space is
//! printed without a rest; every other character is printed and then the
//! current pacing is waited out.  After each line the host polls its
//! input source and stops early when an empty event is pending.
//!
//! An unchecked pacing adjustment could drive the delay out of range, so
//! both adjustments clamp at the range bounds.

use vstd::prelude::*;
use vstd::string::{StrSliceExecFns, StringExecFns};
use crate::strutil::char_to_string;

verus! {

/// Rest this long without printing when the pause glyph is met.
pub const PAUSE_DELAY: u32 = 130;

/// How much the two speed glyphs change the pacing.
pub const SPEED_STEP: u32 = 3;

/// The hourglass glyph: rest, print nothing.
pub const PAUSE_GLYPH: char = '\u{231B}';

/// The left-arrow glyph: print one backspace character instead.
pub const ERASE_GLYPH: char = '\u{2190}';

/// The up-triangle glyph: lower the pacing by one step.
pub const SPEED_UP_GLYPH: char = '\u{1F53C}';

/// The down-triangle glyph: raise the pacing by one step.
pub const SLOW_DOWN_GLYPH: char = '\u{1F53D}';

/// One thing the host is asked to do: write text to the output sink, or
/// rest for a number of time units.
#[derive(Debug, PartialEq, Eq)]
pub enum Effect {
    Print(String),
    Sleep(u32),
}

/// The mathematical shape of an effect: the text as a character sequence.
pub enum EffectView {
    Print(Seq<char>),
    Sleep(u32),
}

impl View for Effect {
    type V = EffectView;

    open spec fn view(&self) -> EffectView {
        match self {
            Effect::Print(s) => EffectView::Print(s@),
            Effect::Sleep(d) => EffectView::Sleep(*d),
        }
    }
}

/// The views of a list of effects.
pub open spec fn effect_views(v: Seq<Effect>) -> Seq<EffectView> {
    v.map_values(|e: Effect| e@)
}

/// The pacing one step lower, stopping at zero.
pub open spec fn speed_up(pacing: u32) -> u32 {
    if pacing >= SPEED_STEP {
        (pacing - SPEED_STEP) as u32
    } else {
        0
    }
}

/// The pacing one step higher, stopping at the largest value.
pub open spec fn slow_down(pacing: u32) -> u32 {
    if pacing <= u32::MAX - SPEED_STEP {
        (pacing + SPEED_STEP) as u32
    } else {
        u32::MAX
    }
}

/// The effects of one character under the given pacing, and the pacing
/// afterwards.
pub open spec fn char_effects(c: char, pacing: u32) -> (Seq<EffectView>, u32) {
    if c == PAUSE_GLYPH {
        (seq![EffectView::Sleep(PAUSE_DELAY)], pacing)
    } else if c == ERASE_GLYPH {
        (seq![EffectView::Print(seq!['\u{8}'])], pacing)
    } else if c == SPEED_UP_GLYPH {
        (Seq::<EffectView>::empty(), speed_up(pacing))
    } else if c == SLOW_DOWN_GLYPH {
        (Seq::<EffectView>::empty(), slow_down(pacing))
    } else if c == ' ' {
        (seq![EffectView::Print(seq![c])], pacing)
    } else {
        (seq![EffectView::Print(seq![c]), EffectView::Sleep(pacing)], pacing)
    }
}

/// The effects of one whole line, closed by a line break, and the pacing
/// afterwards.
pub open spec fn line_effects(s: Seq<char>, pacing: u32) -> (Seq<EffectView>, u32)
    decreases s.len(),
{
    if s.len() == 0 {
        (seq![EffectView::Print(seq!['\r', '\n'])], pacing)
    } else {
        let ce = char_effects(s[0], pacing);
        let rest = line_effects(s.drop_first(), ce.1);
        (ce.0 + rest.0, rest.1)
    }
}

/// Turn one line of text into the effects the host performs for it, under
/// the given pacing; hands back the pacing left after the line's glyphs.
pub fn play_line(line: &str, pacing: u32) -> (r: (Vec<Effect>, u32))
    ensures
        effect_views(r.0@) == line_effects(line@, pacing).0,
        r.1 == line_effects(line@, pacing).1,
{
    let n = line.unicode_len();
    let mut effs: Vec<Effect> = Vec::new();
    let mut pace = pacing;
    let mut i: usize = 0;
    proof {
        assert(line@.skip(0) =~= line@);
        assert(effect_views(effs@) =~= Seq::<EffectView>::empty());
    }
    while i < n
        invariant
            i <= n == line@.len(),
            line_effects(line@, pacing).0 =~= effect_views(effs@) + line_effects(
                line@.skip(i as int),
                pace,
            ).0,
            line_effects(line@, pacing).1 == line_effects(line@.skip(i as int), pace).1,
        decreases n - i,
    {
        let c = line.get_char(i);
        let ghost tail = line@.skip(i as int);
        let ghost pre = effs@;
        let ghost pace0 = pace;
        if c == PAUSE_GLYPH {
            effs.push(Effect::Sleep(PAUSE_DELAY));
        } else if c == ERASE_GLYPH {
            let mut bs = String::new();
            bs.append("\u{8}");
            proof {
                reveal_strlit("\u{8}");
                assert(bs@ =~= seq!['\u{8}']);
            }
            effs.push(Effect::Print(bs));
        } else if c == SPEED_UP_GLYPH {
            pace = if pace >= SPEED_STEP {
                pace - SPEED_STEP
            } else {
                0
            };
        } else if c == SLOW_DOWN_GLYPH {
            pace = if pace <= u32::MAX - SPEED_STEP {
                pace + SPEED_STEP
            } else {
                u32::MAX
            };
        } else if c == ' ' {
            effs.push(Effect::Print(char_to_string(c)));
        } else {
            effs.push(Effect::Print(char_to_string(c)));
            effs.push(Effect::Sleep(pace));
        }
        proof {
            assert(tail[0] == c);
            assert(tail.drop_first() =~= line@.skip(i as int + 1));
            assert(effect_views(effs@) =~= pre.map_values(|e: Effect| e@) + char_effects(
                c,
                pace0,
            ).0);
            assert(effect_views(effs@) + line_effects(line@.skip(i as int + 1), pace).0
                =~= effect_views(pre) + line_effects(tail, pace0).0);
        }
        i += 1;
    }
    proof {
        assert(line@.skip(n as int) =~= Seq::<char>::empty());
        reveal_strlit("\r\n");
    }
    let mut nl = String::new();
    nl.append("\r\n");
    proof {
        assert(nl@ =~= seq!['\r', '\n']);
    }
    let ghost pre = effs@;
    effs.push(Effect::Print(nl));
    proof {
        assert(effect_views(effs@) =~= effect_views(pre) + seq![
            EffectView::Print(seq!['\r', '\n']),
        ]);
        assert(effect_views(effs@) =~= line_effects(line@, pacing).0);
    }
    (effs, pace)
}

/// Whether a polled input event asks playback to stop: only a pending
/// empty event does.
pub fn should_abort(polled: &Option<String>) -> (r: bool)
    ensures
        r == match polled {
            Some(m) => m@.len() == 0,
            None => false,
        },
{
    match polled {
        Some(m) => m.as_str().is_empty(),
        None => false,
    }
}

} // verus!
