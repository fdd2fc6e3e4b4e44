//! Frame ingestion: the colour channels kept from RGBA input.
use vstd::prelude::*;

verus! {

/// The RGB bytes of RGBA data: for every whole 4-byte pixel, its red, green and blue
/// bytes in order, with the alpha byte dropped. A trailing partial pixel is ignored.
pub open spec fn rgb_of_rgba(rgba: Seq<u8>) -> Seq<u8> {
    Seq::new(((rgba.len() / 4) * 3) as nat, |i: int| rgba[(i / 3) * 4 + i % 3])
}

/// Keeps the red, green and blue bytes of every whole pixel of `rgba`, in order,
/// dropping the alpha bytes and any trailing partial pixel.
pub fn rgb_from_rgba(rgba: &[u8]) -> (rgb: Vec<u8>)
    ensures
        rgb@ == rgb_of_rgba(rgba@),
        rgb@.len() == (rgba@.len() / 4) * 3,
        forall|p: int, k: int| 0 <= p < rgba@.len() / 4 && 0 <= k < 3 ==> #[trigger] rgb@[p * 3 + k] == rgba@[p * 4 + k],
{
    let len = rgba.len();
    let pixels = len / 4;
    let mut rgb: Vec<u8> = Vec::new();
    for p in 0..pixels
        invariant
            len == rgba@.len(),
            pixels == rgba@.len() / 4,
            rgb@.len() == p * 3,
            forall|i: int| 0 <= i < p * 3 ==> #[trigger] rgb@[i] == rgba@[(i / 3) * 4 + i % 3],
    {
        proof {
            assert(p * 4 + 3 < len) by (nonlinear_arith)
                requires
                    p < pixels,
                    pixels == len / 4,
            ;
        }
        let ghost before = rgb@;
        rgb.push(rgba[p * 4]);
        rgb.push(rgba[p * 4 + 1]);
        rgb.push(rgba[p * 4 + 2]);
        proof {
            assert forall|i: int| 0 <= i < (p + 1) * 3 implies #[trigger] rgb@[i] == rgba@[(i / 3) * 4 + i % 3] by {
                if i >= p * 3 {
                    let k = i - p * 3;
                    assert(i / 3 == p && i % 3 == k) by (nonlinear_arith)
                        requires
                            i == p * 3 + k,
                            0 <= k < 3,
                    ;
                } else {
                    assert(rgb@[i] == before[i]);
                }
            }
        }
    }
    proof {
        assert(rgb@ =~= rgb_of_rgba(rgba@));
        assert forall|p: int, k: int| 0 <= p < rgba@.len() / 4 && 0 <= k < 3 implies #[trigger] rgb@[p * 3 + k] == rgba@[p * 4 + k] by {
            assert((p * 3 + k) / 3 == p && (p * 3 + k) % 3 == k) by (nonlinear_arith)
                requires
                    0 <= k < 3,
            ;
            assert(p * 3 + k < pixels * 3) by (nonlinear_arith)
                requires
                    p < pixels,
                    0 <= k < 3,
            ;
        }
    }
    rgb
}

} // verus!
