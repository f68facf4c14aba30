//! Draw-call spans: the record of where, in the instance buffer, the
//! pipeline state changes, and the instance ranges that a renderer draws
//! from it.

use vstd::prelude::*;
use crate::texture::TextureKey;

verus! {

/// How drawn colours combine with what is already on the target.
#[derive(Debug, Clone, Copy, PartialEq, Eq, Hash, Structural)]
pub enum BlendMode {
    Normal,
    Additive,
}

/// A span of instances that share pipeline state. It starts at
/// `start_instance` and runs up to the start of the next span. A field
/// that is `None` leaves that part of the state as the previous span had it.
#[derive(Debug, Clone, Copy, PartialEq, Eq, Hash)]
pub struct DrawCall {
    pub start_instance: u32,
    pub set_blend_mode: Option<BlendMode>,
    pub set_texture: Option<TextureKey>,
}

/// A run of draw calls that are issued inside one render pass.
#[derive(Debug, Clone, PartialEq, Eq, Hash)]
pub struct RenderPass {
    pub start_instance: u32,
    pub draw_calls: Vec<DrawCall>,
}

/// One draw to issue: the instances `start..end`, never empty, in the
/// render pass with index `pass`, after the state changes it carries.
#[derive(Debug, Clone, Copy, PartialEq, Eq, Hash)]
pub struct DrawRange {
    pub pass: usize,
    pub start: u32,
    pub end: u32,
    pub set_blend_mode: Option<BlendMode>,
    pub set_texture: Option<TextureKey>,
}

/// Where the span at `index` ends: at the start of the next span, or at
/// `end` for the last one.
pub open spec fn span_end(calls: Seq<DrawCall>, index: int, end: u32) -> u32 {
    if index + 1 < calls.len() {
        calls[index + 1].start_instance
    } else {
        end
    }
}

/// The draws for the first `upto` spans of a pass that ends at `end`, in
/// order, without the spans that hold no instance.
pub open spec fn call_ranges(calls: Seq<DrawCall>, pass: usize, end: u32, upto: int) -> Seq<
    DrawRange,
>
    decreases upto,
{
    if upto <= 0 {
        Seq::empty()
    } else {
        let rest = call_ranges(calls, pass, end, upto - 1);
        let call = calls[upto - 1];
        let stop = span_end(calls, upto - 1, end);
        if call.start_instance < stop {
            rest.push(
                DrawRange {
                    pass,
                    start: call.start_instance,
                    end: stop,
                    set_blend_mode: call.set_blend_mode,
                    set_texture: call.set_texture,
                },
            )
        } else {
            rest
        }
    }
}

/// Where the pass at `index` ends: at the start of the next pass, or at
/// the instance count for the last one.
pub open spec fn pass_end(passes: Seq<RenderPass>, index: int, instance_count: u32) -> u32 {
    if index + 1 < passes.len() {
        passes[index + 1].start_instance
    } else {
        instance_count
    }
}

/// The draws for the first `upto` passes, in order, without the passes
/// that hold no instance.
pub open spec fn pass_ranges(passes: Seq<RenderPass>, instance_count: u32, upto: int) -> Seq<
    DrawRange,
>
    decreases upto,
{
    if upto <= 0 {
        Seq::empty()
    } else {
        let rest = pass_ranges(passes, instance_count, upto - 1);
        let pass = passes[upto - 1];
        let stop = pass_end(passes, upto - 1, instance_count);
        if pass.start_instance < stop {
            rest + call_ranges(
                pass.draw_calls@,
                (upto - 1) as usize,
                stop,
                pass.draw_calls@.len() as int,
            )
        } else {
            rest
        }
    }
}

/// Turns the recorded passes and spans into the draws to issue over an
/// instance buffer of `instance_count` instances. Each span is paired
/// with the start of the span after it, or with the end of its pass, and
/// a pass or span that holds no instance is left out.
pub fn draw_ranges(passes: &Vec<RenderPass>, instance_count: u32) -> (ranges: Vec<DrawRange>)
    ensures
        ranges@ == pass_ranges(passes@, instance_count, passes@.len() as int),
{
    let mut ranges: Vec<DrawRange> = Vec::new();
    let mut p: usize = 0;
    while p < passes.len()
        invariant
            p <= passes.len(),
            ranges@ == pass_ranges(passes@, instance_count, p as int),
        decreases passes.len() - p,
    {
        let pass = &passes[p];
        let stop: u32 = if p + 1 < passes.len() {
            passes[p + 1].start_instance
        } else {
            instance_count
        };
        if pass.start_instance < stop {
            let ghost before = ranges@;
            let mut c: usize = 0;
            while c < pass.draw_calls.len()
                invariant
                    c <= pass.draw_calls.len(),
                    ranges@ == before + call_ranges(pass.draw_calls@, p, stop, c as int),
                decreases pass.draw_calls.len() - c,
            {
                let call = pass.draw_calls[c];
                let end: u32 = if c + 1 < pass.draw_calls.len() {
                    pass.draw_calls[c + 1].start_instance
                } else {
                    stop
                };
                if call.start_instance < end {
                    ranges.push(
                        DrawRange {
                            pass: p,
                            start: call.start_instance,
                            end,
                            set_blend_mode: call.set_blend_mode,
                            set_texture: call.set_texture,
                        },
                    );
                }
                c += 1;
            }
        }
        p += 1;
    }
    ranges
}

} // verus!
