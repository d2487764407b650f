//! The five decoded tables of a tileset, and how they are loaded.
use vstd::prelude::*;

use crate::cv5::CV5s;
use crate::error::Error;
use crate::vf4::VF4s;
use crate::vr4::VR4s;
use crate::vx4::VX4s;
use crate::wpe::{WPEs, WPE};

verus! {

/// The decoded tables of one tileset.
#[derive(Clone)]
pub struct Assets {
    pub cv5s: CV5s,
    pub vf4s: VF4s,
    pub vx4s: VX4s,
    pub vr4s: VR4s,
    pub wpes: WPEs,
}

/// True when `t` is the decoding of some tile group table.
pub open spec fn is_cv5_table(t: Seq<Seq<u16>>) -> bool {
    exists|b: Seq<u8>| t == CV5s::decode(b)
}

/// True when `t` is the decoding of some minitile flag table.
pub open spec fn is_vf4_table(t: Seq<Seq<u16>>) -> bool {
    exists|b: Seq<u8>| VF4s::decode(b) == Ok::<Seq<Seq<u16>>, Error>(t)
}

/// True when `t` is the decoding of some minitile graphic table.
pub open spec fn is_vx4_table(t: Seq<Seq<u16>>) -> bool {
    exists|b: Seq<u8>| VX4s::decode(b) == Ok::<Seq<Seq<u16>>, Error>(t)
}

/// True when `t` is the decoding of some pixel block table.
pub open spec fn is_vr4_table(t: Seq<Seq<u8>>) -> bool {
    exists|b: Seq<u8>| VR4s::decode(b) == Ok::<Seq<Seq<u8>>, Error>(t)
}

/// True when `t` is the decoding of some palette.
pub open spec fn is_wpe_table(t: Seq<WPE>) -> bool {
    exists|b: Seq<u8>| t == WPEs::decode(b)
}

/// A source of the five tables of a tileset. A table it hands out is the
/// decoding of some bytes.
pub trait AssetLoader {
    fn load_cv5s(&self) -> (r: Result<CV5s, Error>)
        ensures
            r matches Ok(t) ==> is_cv5_table(t@),
    ;

    fn load_vf4s(&self) -> (r: Result<VF4s, Error>)
        ensures
            r matches Ok(t) ==> is_vf4_table(t@),
    ;

    fn load_vx4s(&self) -> (r: Result<VX4s, Error>)
        ensures
            r matches Ok(t) ==> is_vx4_table(t@),
    ;

    fn load_vr4s(&self) -> (r: Result<VR4s, Error>)
        ensures
            r matches Ok(t) ==> is_vr4_table(t@),
    ;

    fn load_wpes(&self) -> (r: Result<WPEs, Error>)
        ensures
            r matches Ok(t) ==> is_wpe_table(t@),
    ;
}

/// The tileset made of five loaded tables, or the first failure in the
/// order tile groups, flags, graphics, pixel blocks, palette.
pub open spec fn combine(
    cv5s: Result<CV5s, Error>,
    vf4s: Result<VF4s, Error>,
    vx4s: Result<VX4s, Error>,
    vr4s: Result<VR4s, Error>,
    wpes: Result<WPEs, Error>,
) -> Result<Assets, Error> {
    match (cv5s, vf4s, vx4s, vr4s, wpes) {
        (Err(e), _, _, _, _) => Err(e),
        (Ok(_), Err(e), _, _, _) => Err(e),
        (Ok(_), Ok(_), Err(e), _, _) => Err(e),
        (Ok(_), Ok(_), Ok(_), Err(e), _) => Err(e),
        (Ok(_), Ok(_), Ok(_), Ok(_), Err(e)) => Err(e),
        (Ok(c), Ok(f), Ok(x), Ok(v), Ok(w)) => Ok(
            Assets { cv5s: c, vf4s: f, vx4s: x, vr4s: v, wpes: w },
        ),
    }
}

impl Assets {
    /// The tileset made of five loaded tables, or the first failure in the
    /// order tile groups, flags, graphics, pixel blocks, palette.
    pub fn from_results(
        cv5s: Result<CV5s, Error>,
        vf4s: Result<VF4s, Error>,
        vx4s: Result<VX4s, Error>,
        vr4s: Result<VR4s, Error>,
        wpes: Result<WPEs, Error>,
    ) -> (r: Result<Assets, Error>)
        ensures
            r == combine(cv5s, vf4s, vx4s, vr4s, wpes),
    {
        let cv5s = match cv5s {
            Ok(t) => t,
            Err(e) => {
                return Err(e);
            },
        };
        let vf4s = match vf4s {
            Ok(t) => t,
            Err(e) => {
                return Err(e);
            },
        };
        let vx4s = match vx4s {
            Ok(t) => t,
            Err(e) => {
                return Err(e);
            },
        };
        let vr4s = match vr4s {
            Ok(t) => t,
            Err(e) => {
                return Err(e);
            },
        };
        let wpes = match wpes {
            Ok(t) => t,
            Err(e) => {
                return Err(e);
            },
        };
        Ok(Assets { cv5s, vf4s, vx4s, vr4s, wpes })
    }

    /// Loads the five tables, all of them, then combines the results: the
    /// tileset, or the first failure in table order.
    pub fn from<AL: AssetLoader>(asset_loader: &AL) -> (r: Result<Assets, Error>)
        ensures
            exists|
                c: Result<CV5s, Error>,
                f: Result<VF4s, Error>,
                x: Result<VX4s, Error>,
                v: Result<VR4s, Error>,
                w: Result<WPEs, Error>,
            |
                (c matches Ok(t) ==> is_cv5_table(t@)) && (f matches Ok(t) ==> is_vf4_table(t@))
                    && (x matches Ok(t) ==> is_vx4_table(t@)) && (v matches Ok(t)
                    ==> is_vr4_table(t@)) && (w matches Ok(t) ==> is_wpe_table(t@)) && r
                    == combine(c, f, x, v, w),
            r matches Ok(a) ==> is_cv5_table(a.cv5s@) && is_vf4_table(a.vf4s@) && is_vx4_table(
                a.vx4s@,
            ) && is_vr4_table(a.vr4s@) && is_wpe_table(a.wpes@),
    {
        let cv5s = asset_loader.load_cv5s();
        let vf4s = asset_loader.load_vf4s();
        let vx4s = asset_loader.load_vx4s();
        let vr4s = asset_loader.load_vr4s();
        let wpes = asset_loader.load_wpes();
        let ghost (c, f, x, v, w) = (cv5s, vf4s, vx4s, vr4s, wpes);
        let r = Assets::from_results(cv5s, vf4s, vx4s, vr4s, wpes);
        assert((c matches Ok(t) ==> is_cv5_table(t@)) && (f matches Ok(t) ==> is_vf4_table(t@))
            && (x matches Ok(t) ==> is_vx4_table(t@)) && (v matches Ok(t) ==> is_vr4_table(t@))
            && (w matches Ok(t) ==> is_wpe_table(t@)) && r == combine(c, f, x, v, w));
        r
    }
}

} // verus!
