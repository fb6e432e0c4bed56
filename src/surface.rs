//! The presentable surface's configuration: format choice and resizing.
use vstd::prelude::*;

verus! {

/// Index of the first sRGB format in `srgb`, or 0 when there is none.
pub open spec fn preferred_format(srgb: Seq<bool>) -> nat
    decreases srgb.len(),
{
    if srgb.len() == 0 || srgb[0] {
        0
    } else if exists|j: int| 0 <= j < srgb.len() && srgb[j] {
        1 + preferred_format(srgb.drop_first())
    } else {
        0
    }
}

/// The presentable surface's configuration: which of the adapter's
/// reported formats, present modes and alpha modes it uses (by position in
/// those lists), and its size in pixels.
#[derive(Clone, Copy, Debug, PartialEq, Eq, Structural)]
pub struct SurfaceConfig {
    pub format: usize,
    pub present_mode: usize,
    pub alpha_mode: usize,
    pub width: u32,
    pub height: u32,
}

/// The configuration after a resize to `width` x `height`: a size with a
/// zero side (a minimised window) leaves it as it was.
pub open spec fn resized(config: SurfaceConfig, width: u32, height: u32) -> SurfaceConfig {
    if width == 0 || height == 0 {
        config
    } else {
        SurfaceConfig { width, height, ..config }
    }
}

impl SurfaceConfig {
    /// The first configuration of a surface of `width` x `height` pixels.
    /// `srgb` tells, for each format that the adapter reports, whether it
    /// gives gamma-correct colour; the first such format is taken, else the
    /// first format. The first present mode and alpha mode are taken. There
    /// is none when the adapter reports no format, present mode or alpha mode.
    pub fn new(srgb: &[bool], present_modes: usize, alpha_modes: usize, width: u32, height: u32) -> (r:
        Option<SurfaceConfig>)
        ensures
            r is Some <==> (srgb@.len() > 0 && present_modes > 0 && alpha_modes > 0),
            r matches Some(c) ==> c == (SurfaceConfig {
                format: preferred_format(srgb@) as usize,
                present_mode: 0,
                alpha_mode: 0,
                width,
                height,
            }),
            r matches Some(c) ==> {
                &&& c.format < srgb@.len()
                &&& (exists|j: int| 0 <= j < srgb@.len() && srgb@[j]) ==> srgb@[c.format as int]
                &&& forall|j: int| 0 <= j < c.format ==> !srgb@[j]
            },
    {
        if srgb.len() == 0 || present_modes == 0 || alpha_modes == 0 {
            return None;
        }
        let format = first_srgb(srgb);
        proof {
            lemma_preferred_format(srgb@);
        }
        Some(SurfaceConfig { format, present_mode: 0, alpha_mode: 0, width, height })
    }

    /// Resizes the surface to `width` x `height`. A size with a zero side is
    /// ignored and the result is false; otherwise the stored size changes and
    /// the result is true: the surface must be configured again, and the depth
    /// target and the projection made anew for that size.
    pub fn resize(&mut self, width: u32, height: u32) -> (reconfigure: bool)
        ensures
            *final(self) == resized(*old(self), width, height),
            reconfigure == (width > 0 && height > 0),
    {
        if width == 0 || height == 0 {
            return false;
        }
        self.width = width;
        self.height = height;
        true
    }
}

proof fn lemma_preferred_format(srgb: Seq<bool>)
    ensures
        srgb.len() > 0 ==> preferred_format(srgb) < srgb.len(),
        (exists|j: int| 0 <= j < srgb.len() && srgb[j]) ==> srgb[preferred_format(srgb) as int],
        forall|j: int| 0 <= j < preferred_format(srgb) ==> !srgb[j],
    decreases srgb.len(),
{
    if srgb.len() > 0 && !srgb[0] {
        let rest = srgb.drop_first();
        lemma_preferred_format(rest);
        if exists|j: int| 0 <= j < srgb.len() && srgb[j] {
            let j = choose|j: int| 0 <= j < srgb.len() && srgb[j];
            assert(rest[j - 1]);
            assert forall|k: int| 0 <= k < preferred_format(srgb) implies !srgb[k] by {
                if k > 0 {
                    assert(srgb[k] == rest[k - 1]);
                }
            }
        }
    }
}

/// Position of the first true flag, or 0 when there is none.
fn first_srgb(srgb: &[bool]) -> (r: usize)
    requires
        srgb@.len() > 0,
    ensures
        r == preferred_format(srgb@),
{
    proof {
        lemma_preferred_format(srgb@);
    }
    let mut i: usize = 0;
    while i < srgb.len()
        invariant
            i <= srgb@.len(),
            forall|j: int| 0 <= j < i ==> !srgb@[j],
        decreases srgb@.len() - i,
    {
        if srgb[i] {
            proof {
                lemma_first_true_is_preferred(srgb@, i as nat);
            }
            return i;
        }
        i = i + 1;
    }
    proof {
        lemma_first_true_is_preferred(srgb@, srgb@.len());
    }
    0
}

proof fn lemma_first_true_is_preferred(srgb: Seq<bool>, i: nat)
    requires
        i <= srgb.len(),
        forall|j: int| 0 <= j < i ==> !srgb[j],
        i < srgb.len() ==> srgb[i as int],
    ensures
        preferred_format(srgb) == if i < srgb.len() {
            i
        } else {
            0
        },
    decreases i,
{
    if i > 0 {
        let rest = srgb.drop_first();
        assert forall|j: int| 0 <= j < i - 1 implies !rest[j] by {
            assert(rest[j] == srgb[j + 1]);
        }
        if i < srgb.len() {
            assert(rest[i - 1] == srgb[i as int]);
        }
        lemma_first_true_is_preferred(rest, (i - 1) as nat);
        if i < srgb.len() {
            assert(srgb[i as int]);
        } else {
            assert forall|j: int| 0 <= j < rest.len() implies !rest[j] by {
                assert(rest[j] == srgb[j + 1]);
            }
        }
    }
}

/// Resizing twice to one size gives what resizing once gives: the same
/// surface size, hence the same depth target and projection.
pub proof fn lemma_resize_idempotent(config: SurfaceConfig, width: u32, height: u32)
    ensures
        resized(resized(config, width, height), width, height) == resized(config, width, height),
{
}

/// A resize with a zero side leaves the configuration, and with it the
/// projection, as it was.
pub proof fn lemma_zero_resize_is_noop(config: SurfaceConfig, width: u32, height: u32)
    ensures
        resized(config, 0, height) == config,
        resized(config, width, 0) == config,
{
}

} // verus!
