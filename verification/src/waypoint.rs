//! Waypoints, and the exact mean of a list of points.

use crate::entity::{Node, Point};
use vstd::prelude::*;

verus! {

/// The mean of `count` points, kept exact: the sums of their longitudes and
/// of their latitudes, in units of 1e-7 degree, beside their number. The
/// mean longitude is `lon_total / count`, the mean latitude `lat_total / count`.
#[derive(Clone, Copy, Debug, PartialEq, Eq, Structural)]
pub struct Centroid {
    pub lon_total: i128,
    pub lat_total: i128,
    pub count: usize,
}

/// A named place.
#[derive(Clone, Debug, PartialEq, Eq)]
pub struct Waypoint {
    pub coordinate: Centroid,
    pub name: Option<String>,
}

/// The sum of the longitudes of `points`.
pub open spec fn lon_total(points: Seq<Point>) -> int
    decreases points.len(),
{
    if points.len() == 0 {
        0
    } else {
        lon_total(points.drop_last()) + points.last().decimicro_lon
    }
}

/// The sum of the latitudes of `points`.
pub open spec fn lat_total(points: Seq<Point>) -> int
    decreases points.len(),
{
    if points.len() == 0 {
        0
    } else {
        lat_total(points.drop_last()) + points.last().decimicro_lat
    }
}

/// The mean of `points`, of which there is at least one.
pub open spec fn centroid_of(points: Seq<Point>) -> Centroid {
    Centroid {
        lon_total: lon_total(points) as i128,
        lat_total: lat_total(points) as i128,
        count: points.len() as usize,
    }
}

/// Two means are the same place: `a.lon_total / a.count` is
/// `b.lon_total / b.count`, and so for the latitudes, as fractions.
pub open spec fn same_place(a: Centroid, b: Centroid) -> bool {
    &&& a.count > 0
    &&& b.count > 0
    &&& a.lon_total * b.count == b.lon_total * a.count
    &&& a.lat_total * b.count == b.lat_total * a.count
}

/// Each of `n` points adds at most 2^31 to a sum, in either direction.
pub proof fn lemma_totals_bounded(points: Seq<Point>)
    ensures
        -0x8000_0000 * points.len() <= lon_total(points) <= 0x8000_0000 * points.len(),
        -0x8000_0000 * points.len() <= lat_total(points) <= 0x8000_0000 * points.len(),
    decreases points.len(),
{
    if points.len() > 0 {
        lemma_totals_bounded(points.drop_last());
    }
}

/// The mean of one point is that point.
pub proof fn lemma_single_point(point: Point)
    ensures
        centroid_of(seq![point]) == (Centroid {
            lon_total: point.decimicro_lon as i128,
            lat_total: point.decimicro_lat as i128,
            count: 1,
        }),
{
    let one = seq![point];
    assert(one.drop_last() =~= Seq::<Point>::empty());
    assert(lon_total(one) == lon_total(one.drop_last()) + one.last().decimicro_lon);
    assert(lat_total(one) == lat_total(one.drop_last()) + one.last().decimicro_lat);
    assert(lon_total(one.drop_last()) == 0);
    assert(lat_total(one.drop_last()) == 0);
}

impl Waypoint {
    /// The name as a sequence of characters, where there is one.
    pub open spec fn name_view(&self) -> Option<Seq<char>> {
        match self.name {
            Some(name) => Some(name@),
            None => None,
        }
    }
}

/// The waypoint named `name` at `coordinate`.
pub fn build_waypoint_from_point(name: Option<String>, coordinate: Centroid) -> (waypoint: Waypoint)
    ensures
        waypoint.coordinate == coordinate,
        waypoint.name == name,
{
    Waypoint { coordinate, name }
}

/// The waypoint named `name` at the place of `node`.
pub fn build_waypoint_from_node(name: Option<String>, node: &Node) -> (waypoint: Waypoint)
    ensures
        waypoint.coordinate == centroid_of(seq![node.point()]),
        waypoint.name == name,
{
    proof {
        lemma_single_point(node.point());
    }
    let coordinate = Centroid {
        lon_total: node.decimicro_lon as i128,
        lat_total: node.decimicro_lat as i128,
        count: 1,
    };
    build_waypoint_from_point(name, coordinate)
}

/// The mean of `points`, or nothing where there is no point.
pub fn calculate_centroid(points: &Vec<Point>) -> (centroid: Option<Centroid>)
    ensures
        points@.len() == 0 ==> centroid is None,
        points@.len() > 0 ==> centroid == Some(centroid_of(points@)),
        centroid matches Some(c) ==> c.lon_total == lon_total(points@) && c.lat_total
            == lat_total(points@) && c.count == points@.len(),
{
    if points.len() == 0 {
        return None;
    }
    let mut lon: i128 = 0;
    let mut lat: i128 = 0;
    let mut i: usize = 0;
    while i < points.len()
        invariant
            i <= points@.len(),
            lon == lon_total(points@.take(i as int)),
            lat == lat_total(points@.take(i as int)),
        decreases points@.len() - i,
    {
        proof {
            lemma_totals_bounded(points@.take(i as int));
            assert(points@.take(i + 1).drop_last() =~= points@.take(i as int));
        }
        lon = lon + points[i].decimicro_lon as i128;
        lat = lat + points[i].decimicro_lat as i128;
        i += 1;
    }
    proof {
        assert(points@.take(i as int) =~= points@);
    }
    Some(Centroid { lon_total: lon, lat_total: lat, count: points.len() })
}

} // verus!
