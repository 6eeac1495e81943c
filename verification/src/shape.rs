//! The shapes a client can be shown as.

use vstd::prelude::*;
use crate::rng::{gen_range_i32, thread_rng};

verus! {

/// One of the four solids the backend draws.
#[derive(Debug, Clone, Copy, PartialEq, Eq, Hash, Structural)]
pub enum Shape {
    Cube,
    Pyramid,
    Torus,
    Cylinder,
}

/// The shape picked for a random draw `n`: 0 is a cube, 1 a pyramid,
/// 2 a torus and anything else a cylinder.
pub open spec fn spec_shape_from_draw(n: int) -> Shape {
    if n == 0 {
        Shape::Cube
    } else if n == 1 {
        Shape::Pyramid
    } else if n == 2 {
        Shape::Torus
    } else {
        Shape::Cylinder
    }
}

/// Maps a draw of the random generator to a shape.
pub fn shape_from_draw(n: i32) -> (s: Shape)
    ensures
        s == spec_shape_from_draw(n as int),
        n == 0 ==> s == Shape::Cube,
        n == 1 ==> s == Shape::Pyramid,
        n == 2 ==> s == Shape::Torus,
        (n < 0 || n > 2) ==> s == Shape::Cylinder,
{
    match n {
        0 => Shape::Cube,
        1 => Shape::Pyramid,
        2 => Shape::Torus,
        _ => Shape::Cylinder,
    }
}

/// The draws of the random generator that pick a shape: `0..SHAPE_DRAWS`,
/// one for each shape.
pub const SHAPE_DRAWS: i32 = 4;

/// Picks the shape of a newly seen client: a uniform draw from
/// `0..SHAPE_DRAWS` mapped through `shape_from_draw`. Every shape can come
/// out; which one is chance.
pub fn random_shape() -> (s: Shape)
    ensures
        exists|n: int| 0 <= n < SHAPE_DRAWS && s == spec_shape_from_draw(n),
{
    let mut rng = thread_rng();
    let n = gen_range_i32(&mut rng, 0, SHAPE_DRAWS);
    shape_from_draw(n)
}

/// The shape of the `i`-th simulated client in test mode: the four shapes
/// in turn, starting with the cube.
pub open spec fn spec_test_client_shape(i: int) -> Shape {
    spec_shape_from_draw(i % 4)
}

/// Shape of the `i`-th simulated client in test mode.
pub fn test_client_shape(i: usize) -> (s: Shape)
    ensures
        s == spec_test_client_shape(i as int),
        i % 4 == 0 ==> s == Shape::Cube,
        i % 4 == 1 ==> s == Shape::Pyramid,
        i % 4 == 2 ==> s == Shape::Torus,
        i % 4 == 3 ==> s == Shape::Cylinder,
{
    let shapes = [Shape::Cube, Shape::Pyramid, Shape::Torus, Shape::Cylinder];
    shapes[i % 4]
}

/// The four draws of `0..SHAPE_DRAWS` give the four shapes, each once: a
/// new client can be shown as any of them.
pub proof fn lemma_draws_give_every_shape(s: Shape)
    ensures
        spec_shape_from_draw(0) == Shape::Cube,
        spec_shape_from_draw(1) == Shape::Pyramid,
        spec_shape_from_draw(2) == Shape::Torus,
        spec_shape_from_draw(3) == Shape::Cylinder,
        exists|n: int| 0 <= n < SHAPE_DRAWS && #[trigger] spec_shape_from_draw(n) == s,
{
    match s {
        Shape::Cube => assert(spec_shape_from_draw(0) == s),
        Shape::Pyramid => assert(spec_shape_from_draw(1) == s),
        Shape::Torus => assert(spec_shape_from_draw(2) == s),
        Shape::Cylinder => assert(spec_shape_from_draw(3) == s),
    }
}

/// Test mode shows the four shapes in turn: client `i` is a cube, a
/// pyramid, a torus or a cylinder as `i % 4` is 0, 1, 2 or 3, so any four
/// clients in a row carry four different shapes.
pub proof fn lemma_test_clients_cycle_shapes(i: int)
    requires
        0 <= i,
    ensures
        i % 4 == 0 ==> spec_test_client_shape(i) == Shape::Cube,
        i % 4 == 1 ==> spec_test_client_shape(i) == Shape::Pyramid,
        i % 4 == 2 ==> spec_test_client_shape(i) == Shape::Torus,
        i % 4 == 3 ==> spec_test_client_shape(i) == Shape::Cylinder,
        spec_test_client_shape(i) != spec_test_client_shape(i + 1),
        spec_test_client_shape(i) != spec_test_client_shape(i + 2),
        spec_test_client_shape(i) != spec_test_client_shape(i + 3),
        spec_test_client_shape(i + 1) != spec_test_client_shape(i + 2),
        spec_test_client_shape(i + 1) != spec_test_client_shape(i + 3),
        spec_test_client_shape(i + 2) != spec_test_client_shape(i + 3),
{
}

} // verus!
