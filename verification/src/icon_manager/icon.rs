use crate::icon_manager::rsrc::{encode, rsrc_spec};
use vstd::prelude::*;

verus! {

/// A rendered icon: the icns image and the `Icon\r` resource fork that holds it.
#[derive(Debug)]
pub struct Icon {
    pub icns: Vec<u8>,
    pub rsrc: Vec<u8>,
}

impl Icon {
    /// The icon of an icns image.
    pub fn from_icns(icns: Vec<u8>) -> (res: Result<Icon, std::io::Error>)
        requires
            icns@.len() + 0x104 <= u32::MAX,
        ensures
            res matches Ok(icon) && icon.icns@ == icns@ && icon.rsrc@ == rsrc_spec(icns@),
    {
        let rsrc = match encode(&icns) {
            Ok(r) => r,
            Err(e) => return Err(e),
        };
        Ok(Icon { icns, rsrc })
    }
}

/// The icon resolutions that an avatar can be rendered at.
pub open spec fn resolutions() -> Seq<u32> {
    seq![16u32, 32, 48, 64, 128, 256, 512]
}

/// The resolution to render an avatar of height `height` at: the smallest
/// of `resolutions` that is at least `height`, or 1024 when none is.
pub open spec fn resolution_spec(height: u32) -> u32 {
    if height <= 16 {
        16
    } else if height <= 32 {
        32
    } else if height <= 48 {
        48
    } else if height <= 64 {
        64
    } else if height <= 128 {
        128
    } else if height <= 256 {
        256
    } else if height <= 512 {
        512
    } else {
        1024
    }
}

/// The resolution to render an avatar of height `height` at.
pub fn resolution_for(height: u32) -> (res: u32)
    ensures
        res == resolution_spec(height),
        height <= 512 ==> resolutions().contains(res) && height <= res,
        height <= 512 ==> forall|i: int| 0 <= i < resolutions().len() && height <= #[trigger] resolutions()[i] ==> res <= resolutions()[i],
{
    let steps: [u32; 7] = [16, 32, 48, 64, 128, 256, 512];
    let mut i: usize = 0;
    while i < 7
        invariant
            i <= 7,
            steps@ == resolutions(),
            forall|j: int| 0 <= j < i ==> height > #[trigger] steps@[j],
        decreases 7 - i,
    {
        if height <= steps[i] {
            assert(steps@[i as int] == resolution_spec(height)) by {
                if i > 0 { assert(height > steps@[i - 1]); }
                if i > 1 { assert(height > steps@[i - 2]); }
                if i > 2 { assert(height > steps@[i - 3]); }
                if i > 3 { assert(height > steps@[i - 4]); }
                if i > 4 { assert(height > steps@[i - 5]); }
                if i > 5 { assert(height > steps@[i - 6]); }
            }
            assert(resolutions().contains(steps@[i as int]));
            return steps[i];
        }
        i += 1;
    }
    assert(height > steps@[6]);
    1024
}

/// The checkerboard pixel laid over an avatar at `(x, y)`: translucent black
/// on even squares, translucent white on odd ones.
pub open spec fn overlay_pixel_spec(x: u32, y: u32) -> [u8; 4] {
    if (x + y) % 2 == 0 {
        [0u8, 0, 0, 150]
    } else {
        [255u8, 255, 255, 150]
    }
}

/// The checkerboard pixel at `(x, y)`.
pub fn overlay_pixel(x: u32, y: u32) -> (res: [u8; 4])
    requires
        x + y <= u32::MAX,
    ensures
        res == overlay_pixel_spec(x, y),
{
    if (x + y) % 2 == 0 {
        [0, 0, 0, 150]
    } else {
        [255, 255, 255, 150]
    }
}

} // verus!
