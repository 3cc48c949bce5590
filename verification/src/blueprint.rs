//! Fixture blueprints as the core reads them: identity, modes,
//! channel names and the pixel matrix. (Physical data, capability
//! curves and per-channel detail belong to the fixture tooling, not
//! to the server core.)
use vstd::prelude::*;

use crate::project::{spec_slug, project_file_name};
use crate::text::{spec_decimal_chars, u64_to_string};

verus! {

pub type ChannelIdentifier = String;

pub type PixelGroupIdentifier = String;

/// A fixture blueprint's identity.
#[derive(Debug, Clone, PartialEq)]
pub struct Metadata {
    pub name: String,
    pub identifier: String,
    pub manufacturer: String,
}

/// What the core holds of an imported fixture description.
#[derive(Debug, Clone, PartialEq)]
pub struct FixtureBlueprint {
    pub meta: Metadata,
    pub channels: Vec<ChannelIdentifier>,
    pub modes: Vec<Mode>,
    pub matrix: Option<PixelMatrix>,
}

/// One way to run a fixture: a name and the channel layout.
#[derive(Debug, Clone, PartialEq)]
pub struct Mode {
    pub name: String,
    pub channels: Vec<Option<ChannelIdentifier>>,
}

/// A fixture's pixels, in three dimensions.
#[derive(Debug, Clone, PartialEq)]
pub struct PixelMatrix {
    pub pixels: Vec<Vec<Vec<Option<Pixel>>>>,
    pub groups: Vec<PixelGroupIdentifier>,
}

impl PixelMatrix {
    /// The three dimensions, read off the first rows; a matrix with
    /// an empty first plane has no dimensions to read.
    pub fn dimensions(&self) -> (r: [usize; 3])
        requires
            self.pixels@.len() > 0,
            self.pixels@[0]@.len() > 0,
        ensures
            r@ == seq![
                self.pixels@.len() as usize,
                self.pixels@[0]@.len() as usize,
                self.pixels@[0]@[0]@.len() as usize,
            ],
    {
        let r = [self.pixels.len(), self.pixels[0].len(), self.pixels[0][0].len()];
        proof {
            assert(r@ =~= seq![
                self.pixels@.len() as usize,
                self.pixels@[0]@.len() as usize,
                self.pixels@[0]@[0]@.len() as usize,
            ]);
        }
        r
    }
}

/// One pixel: its key, location and group memberships.
#[derive(Debug, Clone, PartialEq)]
pub struct Pixel {
    pub key: String,
    pub location: PixelLocation,
    pub groups: Vec<PixelGroupIdentifier>,
}

/// A pixel's coordinates in the matrix.
#[derive(Debug, Clone, Copy, PartialEq, Eq, Structural)]
pub struct PixelLocation(pub u16, pub u16, pub u16);

/// What a capability applies to: one pixel, a group, or the fixture.
#[derive(Debug, Clone, PartialEq)]
pub enum PixelIdentifier {
    Pixel(PixelLocation),
    Group(PixelGroupIdentifier),
    Master,
}

/// Kind of fog a fixture makes.
#[derive(Debug, Clone, Copy, PartialEq, Eq, Structural)]
pub enum FogKind {
    Fog,
    Haze,
}

/// A named fixture color.
#[derive(Debug, Clone, Copy, PartialEq, Eq, Structural)]
pub enum Color {
    Red,
    Green,
    Blue,
    Cyan,
    Magenta,
    Yellow,
    Amber,
    White,
    WarmWhite,
    ColdWhite,
    UV,
    Lime,
    Indigo,
}

/// A free RGB color.
#[derive(Debug, Clone, Copy, PartialEq, Eq, Structural)]
pub struct DynamicColor {
    pub r: u8,
    pub g: u8,
    pub b: u8,
}

/// What a shutter does.
#[derive(Debug, Clone, Copy, PartialEq, Eq, Structural)]
pub enum ShutterEffect {
    Open,
    Closed,
    Strobe,
    Pulse,
    RampUp,
    RampDown,
    RampUpDown,
    Lightning,
    Spikes,
    Burst,
}

/// A built-in effect preset.
#[derive(Debug, Clone, Copy, PartialEq, Eq, Structural)]
pub enum Preset {
    ColorJump,
    ColorFade,
}

/// The head-only record of a blueprint: identity, mode names and
/// channel count.
#[derive(Debug, Clone, PartialEq)]
pub struct FixtureBlueprintHead {
    pub meta: Metadata,
    pub modes: Vec<String>,
    pub num_channels: u32,
}

/// The head-only record of `b`: its identity, its mode names in
/// order, and how many channels it has.
pub fn blueprint_head(b: &FixtureBlueprint) -> (r: FixtureBlueprintHead)
    requires
        b.channels@.len() <= u32::MAX,
    ensures
        r.meta == b.meta,
        r.modes@.len() == b.modes@.len(),
        forall|i: int| 0 <= i < r.modes@.len() ==> (#[trigger] r.modes@[i])@ == b.modes@[i].name@,
        r.num_channels == b.channels@.len(),
{
    let mut modes: Vec<String> = Vec::new();
    let n = b.modes.len();
    let mut i: usize = 0;
    while i < n
        invariant
            i <= n,
            n == b.modes@.len(),
            modes@.len() == i,
            forall|j: int| 0 <= j < i ==> (#[trigger] modes@[j])@ == b.modes@[j].name@,
        decreases n - i,
    {
        modes.push(b.modes[i].name.clone());
        i += 1;
    }
    let meta = Metadata {
        name: b.meta.name.clone(),
        identifier: b.meta.identifier.clone(),
        manufacturer: b.meta.manufacturer.clone(),
    };
    FixtureBlueprintHead { meta, modes, num_channels: b.channels.len() as u32 }
}

/// A blueprint's global identifier: the manufacturer slug, a colon,
/// the name slug.
pub fn make_identifier(name: &str, manufacturer: &str) -> (r: String)
    ensures
        r@ == spec_slug(manufacturer@) + seq![':'] + spec_slug(name@),
{
    let mut r = project_file_name(manufacturer);
    r.append(":");
    proof {
        reveal_strlit(":");
        assert(":"@ =~= seq![':']);
    }
    let name_part = project_file_name(name);
    r.append(name_part.as_str());
    r
}

/// The text a pixel key renders as: `(a, b, c)`.
pub open spec fn spec_pixel_key(a: nat, b: nat, c: nat) -> Seq<char> {
    seq!['('] + spec_decimal_chars(a) + seq![',', ' '] + spec_decimal_chars(b) + seq![',', ' ']
        + spec_decimal_chars(c) + seq![')']
}

/// Render one pixel key.
fn pixel_key_string(a: u64, b: u64, c: u64) -> (r: String)
    ensures
        r@ == spec_pixel_key(a as nat, b as nat, c as nat),
{
    let mut r = "(".to_owned();
    r.append(u64_to_string(a).as_str());
    r.append(", ");
    r.append(u64_to_string(b).as_str());
    r.append(", ");
    r.append(u64_to_string(c).as_str());
    r.append(")");
    proof {
        reveal_strlit("(");
        reveal_strlit(", ");
        reveal_strlit(")");
        assert(r@ =~= spec_pixel_key(a as nat, b as nat, c as nat));
    }
    r
}

/// The linear position of pixel `(x, y, z)` in the key list that
/// `gen_each_pixel` builds: planes of `s * t`, rows of `t`.
pub open spec fn spec_pixel_index(s: nat, t: nat, x: int, y: int, z: int) -> int {
    x * (s * t) as int + y * t as int + z
}

/// One key per pixel of an `f` by `s` by `t` matrix, the first axis
/// slowest: the key at position `spec_pixel_index(s, t, x, y, z)` is
/// `(z+1, y+1, x+1)`.
pub fn gen_each_pixel(f: usize, s: usize, t: usize) -> (r: Vec<String>)
    requires
        f * s * t <= usize::MAX,
    ensures
        r@.len() == f * (s * t),
        forall|x: int, y: int, z: int|
            0 <= x < f && 0 <= y < s && 0 <= z < t ==> #[trigger] r@[spec_pixel_index(
                s as nat,
                t as nat,
                x,
                y,
                z,
            )]@ == spec_pixel_key((z + 1) as nat, (y + 1) as nat, (x + 1) as nat),
{
    let mut r: Vec<String> = Vec::new();
    let mut fi: usize = 0;
    while fi < f
        invariant
            fi <= f,
            f * s * t <= usize::MAX,
            r@.len() == fi * (s * t),
            forall|x: int, y: int, z: int|
                0 <= x < fi && 0 <= y < s && 0 <= z < t ==> #[trigger] r@[spec_pixel_index(
                    s as nat,
                    t as nat,
                    x,
                    y,
                    z,
                )]@ == spec_pixel_key((z + 1) as nat, (y + 1) as nat, (x + 1) as nat),
        decreases f - fi,
    {
        let mut si: usize = 0;
        while si < s
            invariant
                fi < f,
                si <= s,
                f * s * t <= usize::MAX,
                r@.len() == fi * (s * t) + si * t,
                forall|x: int, y: int, z: int|
                    0 <= x < fi && 0 <= y < s && 0 <= z < t ==> #[trigger] r@[spec_pixel_index(
                        s as nat,
                        t as nat,
                        x,
                        y,
                        z,
                    )]@ == spec_pixel_key((z + 1) as nat, (y + 1) as nat, (x + 1) as nat),
                forall|y: int, z: int|
                    0 <= y < si && 0 <= z < t ==> #[trigger] r@[spec_pixel_index(
                        s as nat,
                        t as nat,
                        fi as int,
                        y,
                        z,
                    )]@ == spec_pixel_key((z + 1) as nat, (y + 1) as nat, (fi + 1) as nat),
            decreases s - si,
        {
            let mut ti: usize = 0;
            while ti < t
                invariant
                    fi < f,
                    si < s,
                    ti <= t,
                    f * s * t <= usize::MAX,
                    r@.len() == fi * (s * t) + si * t + ti,
                    forall|x: int, y: int, z: int|
                        0 <= x < fi && 0 <= y < s && 0 <= z < t ==> #[trigger] r@[spec_pixel_index(
                            s as nat,
                            t as nat,
                            x,
                            y,
                            z,
                        )]@ == spec_pixel_key((z + 1) as nat, (y + 1) as nat, (x + 1) as nat),
                    forall|y: int, z: int|
                        0 <= y < si && 0 <= z < t ==> #[trigger] r@[spec_pixel_index(
                            s as nat,
                            t as nat,
                            fi as int,
                            y,
                            z,
                        )]@ == spec_pixel_key((z + 1) as nat, (y + 1) as nat, (fi + 1) as nat),
                    forall|z: int|
                        0 <= z < ti ==> #[trigger] r@[spec_pixel_index(
                            s as nat,
                            t as nat,
                            fi as int,
                            si as int,
                            z,
                        )]@ == spec_pixel_key((z + 1) as nat, (si + 1) as nat, (fi + 1) as nat),
                decreases t - ti,
            {
                proof {
                    assert(fi * (s * t) + si * t + ti < f * (s * t)) by (nonlinear_arith)
                        requires
                            0 <= fi < f,
                            0 <= si < s,
                            0 <= ti < t,
                    ;
                    assert(f * (s * t) == f * s * t) by (nonlinear_arith);
                }
                let key = pixel_key_string((ti + 1) as u64, (si + 1) as u64, (fi + 1) as u64);
                let ghost prev = r@;
                r.push(key);
                proof {
                    let len0 = prev.len() as int;
                    assert(spec_pixel_index(s as nat, t as nat, fi as int, si as int, ti as int)
                        == len0);
                    assert forall|x: int, y: int, z: int|
                        0 <= x < fi && 0 <= y < s && 0 <= z < t implies #[trigger] r@[
                    spec_pixel_index(s as nat, t as nat, x, y, z)]@ == spec_pixel_key(
                        (z + 1) as nat,
                        (y + 1) as nat,
                        (x + 1) as nat,
                    ) by {
                        let idx = spec_pixel_index(s as nat, t as nat, x, y, z);
                        assert(0 <= idx < fi * (s * t)) by (nonlinear_arith)
                            requires
                                idx == x * (s * t) + y * t + z,
                                0 <= x < fi,
                                0 <= y < s,
                                0 <= z < t,
                        ;
                        assert(r@[idx] == prev[idx]);
                    }
                    assert forall|y: int, z: int|
                        0 <= y < si && 0 <= z < t implies #[trigger] r@[spec_pixel_index(
                        s as nat,
                        t as nat,
                        fi as int,
                        y,
                        z,
                    )]@ == spec_pixel_key((z + 1) as nat, (y + 1) as nat, (fi + 1) as nat) by {
                        let idx = spec_pixel_index(s as nat, t as nat, fi as int, y, z);
                        assert(fi * (s * t) <= idx < fi * (s * t) + si * t) by (nonlinear_arith)
                            requires
                                idx == fi * (s * t) + y * t + z,
                                0 <= y < si,
                                0 <= z < t,
                                0 <= fi,
                        ;
                        assert(r@[idx] == prev[idx]);
                    }
                    assert forall|z: int|
                        0 <= z < ti + 1 implies #[trigger] r@[spec_pixel_index(
                        s as nat,
                        t as nat,
                        fi as int,
                        si as int,
                        z,
                    )]@ == spec_pixel_key((z + 1) as nat, (si + 1) as nat, (fi + 1) as nat) by {
                        let idx = spec_pixel_index(s as nat, t as nat, fi as int, si as int, z);
                        if z < ti {
                            assert(r@[idx] == prev[idx]);
                        } else {
                            assert(idx == len0);
                        }
                    }
                }
                ti += 1;
            }
            proof {
                assert(fi * (s * t) + si * t + t == fi * (s * t) + (si + 1) * t)
                    by (nonlinear_arith);
            }
            si += 1;
        }
        proof {
            assert(fi * (s * t) + s * t == (fi + 1) * (s * t)) by (nonlinear_arith);
        }
        fi += 1;
    }
    proof {
        assert(f * (s * t) == f * s * t) by (nonlinear_arith);
    }
    r
}

} // verus!
