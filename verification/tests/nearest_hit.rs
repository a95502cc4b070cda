use rray::colour::Rgb;
use rray::resolver::intersect_nodes;
use rray::scene::{Intersection, Material, Primitive};

fn primitive(id: usize) -> Primitive {
    let grey = Rgb { r: 32768, g: 32768, b: 32768 };
    Primitive { id, mat: Material { diffuse: grey, specular: grey } }
}

fn hit(distance: f64, id: usize) -> Option<Intersection> {
    Some(Intersection { distance: distance.to_bits(), primitive: primitive(id) })
}

#[test]
fn nearest_of_two_hits_in_either_order() {
    let near = hit(2.0, 7);
    let far = hit(5.0, 9);
    assert_eq!(intersect_nodes(&vec![near, far]), near);
    assert_eq!(intersect_nodes(&vec![far, near]), near);
}

#[test]
fn nearest_of_no_reports_is_none() {
    assert_eq!(intersect_nodes(&vec![]), None);
}

#[test]
fn nearest_of_misses_is_none() {
    assert_eq!(intersect_nodes(&vec![None, None, None]), None);
}

#[test]
fn nearest_skips_the_misses() {
    let only = hit(3.5, 1);
    assert_eq!(intersect_nodes(&vec![None, only, None]), only);
}

#[test]
fn nearest_of_equal_distances_is_the_last() {
    let first = hit(1.0, 0);
    let second = hit(1.0, 1);
    let got = intersect_nodes(&vec![first, hit(4.0, 2), second, hit(2.0, 3)]);
    assert_eq!(got, second);
}

#[test]
fn nearest_looks_at_every_report() {
    let reports = vec![hit(9.0, 0), hit(8.0, 1), hit(7.0, 2), hit(0.25, 3)];
    assert_eq!(intersect_nodes(&reports), hit(0.25, 3));
    let reports = vec![hit(0.25, 3), hit(9.0, 0), hit(8.0, 1), hit(7.0, 2)];
    assert_eq!(intersect_nodes(&reports), hit(0.25, 3));
}

#[test]
fn nearest_takes_distance_zero() {
    let reports = vec![hit(0.0, 0), hit(1.0e-9, 1)];
    assert_eq!(intersect_nodes(&reports), hit(0.0, 0));
}

#[test]
fn nearest_distance_is_the_same_for_every_order() {
    let hits = [hit(6.0, 0), None, hit(1.5, 1), hit(3.0, 2)];
    let orders: [[usize; 4]; 6] =
        [[0, 1, 2, 3], [3, 2, 1, 0], [1, 0, 3, 2], [2, 3, 0, 1], [2, 0, 1, 3], [3, 1, 0, 2]];
    for order in orders {
        let reports: Vec<Option<Intersection>> = order.iter().map(|&i| hits[i]).collect();
        assert_eq!(intersect_nodes(&reports), hit(1.5, 1));
    }
}
