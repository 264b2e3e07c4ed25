//! Generation of a layer point by point: a value is drawn for each point of
//! the map, row by row, and written in the layer.
use vstd::prelude::*;
use crate::domain::geometry::{Coord, CoordPair, Rect};
use crate::domain::map::GameMap;
use crate::gen::layer::{Layer, LayerDistribution};
use crate::gen::random::PickedReproducibleRng;

verus! {

/// Why a layer could not be generated.
#[derive(Debug, Clone, Copy, PartialEq, Eq)]
pub enum Error<L, Ld> {
    /// The layer could not be written.
    Layer(L),
    /// No value could be drawn.
    LayerDistribution(Ld),
}

/// Whether `p` comes before row `y`, column `x` in row-major order.
pub open spec fn before(p: CoordPair, y: int, x: int) -> bool {
    p.y < y || (p.y == y && p.x < x)
}

/// Whether the value of `layer` at `p` in `map` is one that `distr` may draw
/// for `p` on some map over `map`'s rectangle.
pub open spec fn drawn_at<L: Layer, Ld: LayerDistribution<Data = L::Data>>(
    layer: &L,
    distr: &Ld,
    map: GameMap,
    p: CoordPair,
) -> bool {
    exists|m: GameMap| m.wf() && m.rect_spec() == map.rect_spec() && #[trigger] distr.admits(m, p, layer.value_at(map, p))
}

/// Whether what `distr` may draw for a point stays allowed when the map
/// changes only within `layer`.
pub open spec fn draws_outside_of<L: Layer, Ld: LayerDistribution<Data = L::Data>>(layer: &L, distr: &Ld) -> bool {
    forall|m1: GameMap, m2: GameMap, p: CoordPair, v: L::Data|
        #![trigger layer.keeps(m1, m2), distr.admits(m1, p, v)]
        m1.wf() && layer.keeps(m1, m2) && distr.admits(m1, p, v) ==> distr.admits(m2, p, v)
}

/// Whether generating `layer` with `distr` over a map on `rect` cannot fail:
/// on every such map and at every point, a value can be drawn, and each value
/// that may be drawn can be written.
pub open spec fn never_fails<L: Layer, Ld: LayerDistribution<Data = L::Data>>(layer: &L, distr: &Ld, rect: Rect) -> bool {
    &&& forall|m: GameMap, p: CoordPair|
        m.wf() && m.rect_spec() == rect && rect.contains(p) ==> #[trigger] distr.draws_at(m, p)
    &&& forall|m: GameMap, p: CoordPair, v: L::Data|
        m.wf() && m.rect_spec() == rect && rect.contains(p) && #[trigger] distr.admits(m, p, v) ==> layer.accepts(m, p, v)
}

/// The generator of a layer, point by point.
#[derive(Debug)]
pub struct Generator {
    _priv: bool,
}

impl Generator {
    /// A generator.
    pub fn new() -> (r: Generator) {
        Generator { _priv: false }
    }

    /// How many steps generating the layer of `map` takes: one per point.
    pub fn progress_goal(&self, map: &GameMap) -> (r: usize)
        requires
            map.wf(),
        ensures
            r == map.rect_spec().size.y * map.rect_spec().size.x,
    {
        let rect = map.rect();
        let y: usize = rect.size.y as usize;
        let x: usize = rect.size.x as usize;
        assert(y * x <= 0xFFFF * 0xFFFF) by (nonlinear_arith)
            requires
                y <= 0xFFFF,
                x <= 0xFFFF,
        ;
        y * x
    }

    /// Draws a value for each point of the map, row by row, and writes it in
    /// the layer, stopping at the first error.
    pub fn execute<L: Layer, Ld: LayerDistribution<Data = L::Data>>(
        self,
        layer: &L,
        layer_distr: &Ld,
        map: &mut GameMap,
        rng: &mut PickedReproducibleRng,
    ) -> (r: Result<(), Error<L::Error, Ld::Error>>)
        requires
            old(map).wf(),
        ensures
            final(map).wf(),
            final(map).rect_spec() == old(map).rect_spec(),
            layer.keeps(*old(map), *final(map)),
            never_fails(layer, layer_distr, old(map).rect_spec()) ==> r is Ok,
            r is Ok ==> forall|p: CoordPair| #[trigger]
                old(map).rect_spec().contains(p) ==> drawn_at(layer, layer_distr, *final(map), p),
            r is Ok && draws_outside_of(layer, layer_distr) ==> forall|p: CoordPair| #[trigger]
                old(map).rect_spec().contains(p) ==> layer_distr.admits(*final(map), p, layer.value_at(*final(map), p)),
    {
        proof {
            map.lemma_wf_fits();
        }
        let rect = map.rect();
        proof {
            layer.lemma_keeps_refl(*map);
        }
        let bottom: Coord = rect.top_left.y + rect.size.y;
        let right: Coord = rect.top_left.x + rect.size.x;
        let mut y: Coord = rect.top_left.y;
        while y < bottom
            invariant
                map.wf(),
                map.rect_spec() == rect,
                rect == old(map).rect_spec(),
                layer.keeps(*old(map), *map),
                bottom == rect.top_left.y + rect.size.y,
                right == rect.top_left.x + rect.size.x,
                rect.top_left.y <= y <= bottom,
                forall|p: CoordPair| #[trigger]
                    rect.contains(p) && before(p, y as int, rect.top_left.x as int) ==> drawn_at(layer, layer_distr, *map, p),
                draws_outside_of(layer, layer_distr) ==> forall|p: CoordPair| #[trigger]
                    rect.contains(p) && before(p, y as int, rect.top_left.x as int) ==> layer_distr.admits(
                        *map,
                        p,
                        layer.value_at(*map, p),
                    ),
            decreases bottom - y,
        {
            let mut x: Coord = rect.top_left.x;
            while x < right
                invariant
                    map.wf(),
                    map.rect_spec() == rect,
                    rect == old(map).rect_spec(),
                    layer.keeps(*old(map), *map),
                    bottom == rect.top_left.y + rect.size.y,
                    right == rect.top_left.x + rect.size.x,
                    rect.top_left.y <= y < bottom,
                    rect.top_left.x <= x <= right,
                    forall|p: CoordPair| #[trigger]
                        rect.contains(p) && before(p, y as int, x as int) ==> drawn_at(layer, layer_distr, *map, p),
                    draws_outside_of(layer, layer_distr) ==> forall|p: CoordPair| #[trigger]
                        rect.contains(p) && before(p, y as int, x as int) ==> layer_distr.admits(
                            *map,
                            p,
                            layer.value_at(*map, p),
                        ),
                decreases right - x,
            {
                let point = CoordPair { y, x };
                let data = match layer_distr.sample(map, point, rng) {
                    Ok(d) => d,
                    Err(e) => {
                        proof {
                            if never_fails(layer, layer_distr, rect) {
                                assert(layer_distr.draws_at(*map, point));
                            }
                        }
                        return Err(Error::LayerDistribution(e));
                    },
                };
                let ghost m0 = *map;
                match layer.set(map, point, data) {
                    Ok(()) => {
                        proof {
                            layer.lemma_keeps_trans(*old(map), m0, *map);
                        }
                    },
                    Err(e) => {
                        proof {
                            layer.lemma_keeps_trans(*old(map), m0, *map);
                        }
                        proof {
                            if never_fails(layer, layer_distr, rect) {
                                assert(layer_distr.admits(m0, point, data));
                                assert(layer.accepts(m0, point, data));
                            }
                        }
                        return Err(Error::Layer(e));
                    },
                }
                proof {
                    assert(layer_distr.admits(m0, point, layer.value_at(*map, point)));
                    if draws_outside_of(layer, layer_distr) {
                        assert forall|p: CoordPair| #[trigger]
                            rect.contains(p) && before(p, y as int, x + 1) implies layer_distr.admits(
                            *map,
                            p,
                            layer.value_at(*map, p),
                        ) by {
                            assert(layer.keeps(m0, *map));
                            if p == point {
                                assert(layer_distr.admits(m0, p, layer.value_at(*map, p)));
                            } else {
                                assert(before(p, y as int, x as int));
                                assert(layer_distr.admits(m0, p, layer.value_at(m0, p)));
                                assert(layer.value_at(*map, p) == layer.value_at(m0, p));
                            }
                        }
                    }
                    assert forall|p: CoordPair| #[trigger]
                        rect.contains(p) && before(p, y as int, x + 1) implies drawn_at(layer, layer_distr, *map, p) by {
                        if p == point {
                            assert(layer_distr.admits(m0, p, layer.value_at(*map, p)));
                        } else {
                            assert(before(p, y as int, x as int));
                            assert(drawn_at(layer, layer_distr, m0, p));
                            assert(layer.value_at(*map, p) == layer.value_at(m0, p));
                        }
                    }
                }
                x = x + 1;
            }
            proof {
                assert forall|p: CoordPair| #[trigger]
                    rect.contains(p) && before(p, y + 1, rect.top_left.x as int) implies drawn_at(layer, layer_distr, *map, p) by {
                    assert(before(p, y as int, x as int));
                }
                if draws_outside_of(layer, layer_distr) {
                    assert forall|p: CoordPair| #[trigger]
                        rect.contains(p) && before(p, y + 1, rect.top_left.x as int) implies layer_distr.admits(
                        *map,
                        p,
                        layer.value_at(*map, p),
                    ) by {
                        assert(before(p, y as int, x as int));
                    }
                }
            }
            y = y + 1;
        }
        proof {
            assert forall|p: CoordPair| #[trigger] old(map).rect_spec().contains(p) implies drawn_at(layer, layer_distr, *map, p) by {
                assert(before(p, y as int, rect.top_left.x as int));
            }
            if draws_outside_of(layer, layer_distr) {
                assert forall|p: CoordPair| #[trigger] old(map).rect_spec().contains(p) implies layer_distr.admits(
                    *map,
                    p,
                    layer.value_at(*map, p),
                ) by {
                    assert(before(p, y as int, rect.top_left.x as int));
                }
            }
        }
        Ok(())
    }
}

} // verus!
