use fvr_engine::adjacency::Adjacency;
use fvr_engine::direction::{Direction, Orientation};
use fvr_engine::distance::{Distance, Radius};
use fvr_engine::lines::Lines;
use fvr_engine::map2d::{GridMap, Map2dType, Map2dView, Map2dViewMut, SubMap};
use fvr_engine::misc::Misc;
use fvr_engine::rect::Rect;
use fvr_engine::translate_map::{MapTranslation, TranslateMap};
use fvr_engine::server::{
    centered_view, ActorPresence, Cell, GoalState, IdleGoal, PathingProperties, Thing,
};
use fvr_engine::states::{DijkstraState, Passability, Transparency};
use fvr_engine::timer::Timer;

fn dir(o: Orientation) -> Direction {
    Direction::from_orientation(o)
}

fn trait_func<M, T>(obj: &M) -> T
where
    T: Map2dType,
    M: Map2dView<Type = T>,
{
    obj.get_xy((5, 5)).clone()
}

fn dyn_trait_func<T>(obj: &dyn Map2dView<Type = T>) -> T
where
    T: Map2dType,
{
    obj.get_xy((5, 5)).clone()
}

#[test]
fn test_adjacency_iter_from_cardinal() {
    let start = dir(Orientation::Northeast);
    let directions: Vec<Direction> = Adjacency::Cardinals.iter_from(start);
    let expected = vec![
        dir(Orientation::East),
        dir(Orientation::South),
        dir(Orientation::West),
        dir(Orientation::North),
    ];
    assert_eq!(directions, expected);
}

#[test]
fn test_adjacency_iter_from_diagonal() {
    let start = dir(Orientation::East);
    let directions: Vec<Direction> = Adjacency::Diagonals.iter_from(start);
    let expected = vec![
        dir(Orientation::Southeast),
        dir(Orientation::Southwest),
        dir(Orientation::Northwest),
        dir(Orientation::Northeast),
    ];
    assert_eq!(directions, expected);
}

#[test]
fn test_adjacency_iter_from_eight_way() {
    let start = dir(Orientation::Southwest);
    let directions: Vec<Direction> = Adjacency::EightWay.iter_from(start);
    let expected = vec![
        dir(Orientation::Southwest),
        dir(Orientation::West),
        dir(Orientation::Northwest),
        dir(Orientation::North),
        dir(Orientation::Northeast),
        dir(Orientation::East),
        dir(Orientation::Southeast),
        dir(Orientation::South),
    ];
    assert_eq!(directions, expected);
}

#[test]
fn test_direction_closest_cardinal_direction() {
    assert_eq!(Direction::closest_cardinal_direction((1, 1), (2, 1)), dir(Orientation::East));
    assert_eq!(Direction::closest_cardinal_direction((1, 1), (2, 10)), dir(Orientation::South));
    assert_eq!(Direction::closest_cardinal_direction((7, 2), (0, 2)), dir(Orientation::West));
    assert_eq!(Direction::closest_cardinal_direction((1, 1), (0, 0)), dir(Orientation::North));
}

#[test]
fn test_direction_closest_direction() {
    assert_eq!(Direction::closest_direction((1, 1), (2, 1)), dir(Orientation::East));
    assert_eq!(Direction::closest_direction((1, 1), (1, 2)), dir(Orientation::South));
    assert_eq!(Direction::closest_direction((7, 2), (0, 2)), dir(Orientation::West));
    assert_eq!(Direction::closest_direction((1, 1), (1, 0)), dir(Orientation::North));
    assert_eq!(Direction::closest_direction((1, 1), (0, 0)), dir(Orientation::Northwest));
    assert_eq!(Direction::closest_direction((1, 1), (2, 2)), dir(Orientation::Southeast));
    assert_eq!(Direction::closest_direction((1, 1), (0, 2)), dir(Orientation::Southwest));
    assert_eq!(Direction::closest_direction((1, 1), (2, 0)), dir(Orientation::Northeast));
}

#[test]
fn test_grid_map() {
    let width = 4;
    let height = 6;
    let x = width / 2;
    let y = height / 2;
    let mut grid_map: GridMap<u32> = GridMap::new((width, height));

    assert_eq!(*grid_map.get(Misc::index_2d((x, y), width)), u32::default());
    assert_eq!(*grid_map.get_xy((x, y)), u32::default());

    *grid_map.get_mut(Misc::index_2d((x, y), width)) = 1;
    assert_eq!(*grid_map.get(Misc::index_2d((x, y), width)), 1);

    *grid_map.get_xy_mut((x, y)) = 2;
    assert_eq!(*grid_map.get_xy((x, y)), 2);
}

#[test]
fn test_2d_index() {
    assert_eq!(Misc::index_2d((5, 6), 10), 65);
    assert_eq!(Misc::reverse_index_2d(65, 10), (5, 6));
}

#[test]
fn test_sub_map() {
    let mut grid_map: GridMap<u32> = GridMap::new((10, 10));
    *grid_map.get_xy_mut((1, 0)) = 10;
    *grid_map.get_xy_mut((5, 5)) = 10;

    let full_rect = Rect::new((0, 0), grid_map.width(), grid_map.height());
    let sub_map = SubMap::new(&mut grid_map, full_rect);
    assert_eq!(*sub_map.get_xy((1, 0)), 10);
    assert_eq!(*sub_map.get_xy((5, 5)), 10);
    assert_eq!(trait_func(&sub_map), 10);
    assert_eq!(dyn_trait_func(&sub_map), 10);

    let sub_map = SubMap::new(&mut grid_map, Rect::new((1, 0), 10, 10));
    assert_eq!(*sub_map.get(0), 10);
    assert_eq!(*sub_map.get_xy((4, 5)), 10);
}

#[test]
fn test_sub_map_writes_base() {
    let mut grid_map: GridMap<u32> = GridMap::new((6, 4));
    {
        let mut sub_map = SubMap::new(&mut grid_map, Rect::new((2, 1), 3, 2));
        *sub_map.get_xy_mut((1, 1)) = 7;
        *sub_map.get_mut(0) = 9;
        assert_eq!(sub_map.width(), 3);
        assert_eq!(sub_map.height(), 2);
    }
    assert_eq!(*grid_map.get_xy((3, 2)), 7);
    // Index 0 of the sub map is its coord (0, 0), the base coord (2, 1).
    assert_eq!(*grid_map.get_xy((2, 1)), 9);
    assert_eq!(*grid_map.get(8), 9);

    let mut grid_map: GridMap<u32> = GridMap::new((10, 10));
    *grid_map.get_xy_mut((3, 2)) = 7;
    let sub_map = SubMap::new(&mut grid_map, Rect::new((1, 1), 4, 4));
    assert_eq!(*sub_map.get(6), 7);
    for i in 0..16 {
        assert_eq!(*sub_map.get(i), *sub_map.get_xy(Misc::reverse_index_2d(i, sub_map.width())));
    }
}

#[test]
fn test_misc_centered_origin_and_conversions() {
    assert_eq!(Misc::centered_origin(4, 10), 3);
    assert_eq!(Misc::centered_origin(5, 10), 2);
    assert_eq!(Misc::centered_origin(11, 10), 0);
    assert_eq!(Misc::centered_origin(13, 10), -1);
    assert_eq!(Misc::utoi((3, 4)), (3, 4));
    assert_eq!(Misc::itou((3, 4)), (3, 4));
}

#[test]
fn test_direction_rotations() {
    let north = dir(Orientation::North);
    assert_eq!(north.clockwise(2), dir(Orientation::East));
    assert_eq!(north.clockwise(8), north);
    assert_eq!(north.clockwise(3).clockwise(4), north.clockwise(7));
    let west = dir(Orientation::West);
    assert_eq!(west.counter_clockwise(2).clockwise(2), west);
    assert_eq!(west.counter_clockwise(6), north);
    assert_eq!(Direction::from_index(10), dir(Orientation::East));
    assert_eq!(dir(Orientation::Southwest).delta(), (-1, 1));
    assert_eq!(dir(Orientation::Null).delta(), (0, 0));
}

#[test]
fn test_direction_closest_of_steps_and_scaling() {
    for o in [
        Orientation::North,
        Orientation::Northeast,
        Orientation::East,
        Orientation::Southeast,
        Orientation::South,
        Orientation::Southwest,
        Orientation::West,
        Orientation::Northwest,
    ] {
        let d = dir(o);
        assert_eq!(Direction::closest_direction((0, 0), d.delta()), d);
        let far = (d.dx() * 7, d.dy() * 7);
        assert_eq!(Direction::closest_direction((0, 0), far), d);
    }
    assert_eq!(Direction::closest_direction((0, 0), (0, 0)), dir(Orientation::East));
    assert_eq!(Direction::closest_direction((0, 0), (5, 2)), dir(Orientation::East));
    assert_eq!(Direction::closest_direction((0, 0), (5, 3)), dir(Orientation::Southeast));
}

#[test]
fn test_direction_names() {
    assert_eq!(dir(Orientation::North).name(), "Orientation::North");
    assert_eq!(dir(Orientation::Southwest).name(), "Orientation::Southwest");
}

#[test]
fn test_adjacency_iter_and_index() {
    let cardinals = Adjacency::Cardinals.iter();
    assert_eq!(
        cardinals,
        vec![
            dir(Orientation::North),
            dir(Orientation::East),
            dir(Orientation::South),
            dir(Orientation::West),
        ]
    );
    assert_eq!(Adjacency::EightWay.iter().len(), 8);
    assert_eq!(Adjacency::Diagonals.iter()[0], dir(Orientation::Northeast));
}

#[test]
fn test_distance_radius_round_trip() {
    assert_eq!(Distance::Chebyshev.radius(), Radius::Square);
    assert_eq!(Distance::Euclidean.radius(), Radius::Circle);
    assert_eq!(Distance::Manhattan.radius(), Radius::Diamond);
    assert_eq!(Radius::Square.distance(), Distance::Chebyshev);
    assert_eq!(Radius::Circle.distance(), Distance::Euclidean);
    assert_eq!(Radius::Diamond.distance(), Distance::Manhattan);
    assert_eq!(Distance::Manhattan.adjacency(), Adjacency::Cardinals);
    assert_eq!(Distance::Chebyshev.adjacency(), Adjacency::EightWay);
    assert_eq!(Radius::Diamond.adjacency(), Adjacency::Cardinals);
}

#[test]
fn test_rect_basics() {
    let r = Rect::new((1, 2), 3, 4);
    assert_eq!(r.origin(), (1, 2));
    assert_eq!(r.max_entent(), (3, 5));
    assert_eq!(r.dimensions(), (3, 4));
    assert_eq!(r.area(), 12);
    assert!(r.contains((3, 5)));
    assert!(!r.contains((4, 5)));
    assert_eq!(r.points().len(), 12);
    assert!(!r.is_empty());
    assert!(Rect::new((0, 0), 0, 4).is_empty());
}

#[test]
fn test_rect_set_operations() {
    let a = Rect::new((0, 0), 3, 3);
    let b = Rect::new((2, 2), 3, 3);
    assert!(a.intersects(&b));
    assert_eq!(a.intersection(&b), Some(Rect::new((2, 2), 1, 1)));
    assert_eq!(a.containing(&b), Rect::new((0, 0), 5, 5));
    assert_eq!(a.difference(&b).len(), 8);
    assert!(!a.difference(&b).contains(&(2, 2)));
    assert_eq!(a.union(&b).len(), 1);
    assert_eq!(a.intersection(&Rect::new((5, 5), 1, 1)), None);
    assert_eq!(a.perimeter_points().len(), 8);
}

#[test]
fn test_rect_extract_insert() {
    let r = Rect::new((2, 3), 4, 4);
    assert_eq!(r.extract_xy((3, 5)), Some((1, 2)));
    assert_eq!(r.extract_xy((0, 0)), None);
    assert_eq!(r.insert_xy((1, 2)), (3, 5));
    let mut inner = Rect::new((8, 8), 2, 2);
    inner.fit_boundary(&Rect::new((0, 0), 5, 5));
    assert_eq!(inner.origin(), (3, 3));
    let mut outside = Rect::new((-2, 1), 2, 2);
    outside.fit_boundary(&Rect::new((0, 0), 5, 5));
    assert_eq!(outside.origin(), (0, 1));
}

#[test]
fn test_lines_bresenham_and_dda() {
    assert_eq!(Lines::bresenham((0, 0), (3, 1)), vec![(0, 0), (1, 0), (2, 1), (3, 1)]);
    assert_eq!(Lines::bresenham((2, 2), (2, 2)), vec![(2, 2)]);
    assert_eq!(Lines::dda((0, 0), (0, 3)), vec![(0, 0), (0, 1), (0, 2), (0, 3)]);
    assert_eq!(Lines::dda((0, 0), (2, 2)), vec![(0, 0), (1, 1), (2, 2)]);
    assert_eq!(Lines::dda((4, 1), (4, 1)), vec![(4, 1)]);
    let line = Lines::bresenham((5, 5), (1, 2));
    assert_eq!(line.len(), 5);
    assert_eq!(line.first(), Some(&(1, 2)));
    assert_eq!(line.last(), Some(&(5, 5)));
}

#[test]
fn test_timer() {
    let mut timer = Timer::new(10);
    assert!(!timer.update(4));
    assert!(!timer.update(5));
    assert!(timer.update(3));
    assert_eq!(timer.passed(), 2);
    timer.update_without_consuming(20);
    assert_eq!(timer.passed(), 22);
    assert!(timer.update(0));
    assert_eq!(timer.passed(), 12);
    timer.reset();
    assert_eq!(timer.passed(), 0);
    timer.set_interval(3);
    assert_eq!(timer.interval(), 3);
}

#[test]
fn test_states_conversions() {
    assert!(Passability::Passable.passable());
    assert!(!Passability::Blocked.passable());
    assert_eq!(Passability::from_bool(true), Passability::Passable);
    assert_eq!(DijkstraState::from_passability(Passability::Blocked), DijkstraState::Blocked);
    assert!(!DijkstraState::Goal(3).passable());
    assert!(DijkstraState::Passable.passable());
    assert_eq!(Passability::from_dijkstra_state(DijkstraState::Goal(1)), Passability::Passable);
    assert!(Transparency::Transparent.transparent());
    assert_eq!(Transparency::from_dijkstra_state(DijkstraState::Blocked), Transparency::Opaque);
    assert_eq!(DijkstraState::from_transparency(Transparency::Transparent), DijkstraState::Passable);
    assert_eq!(Transparency::from_bool(false), Transparency::Opaque);
}

#[test]
fn test_cell_passability_and_transparency() {
    let wall = Thing { passability: Passability::Blocked, transparency: Transparency::Opaque, tile: '#' };
    let glass =
        Thing { passability: Passability::Blocked, transparency: Transparency::Transparent, tile: '"' };
    let floor =
        Thing { passability: Passability::Passable, transparency: Transparency::Transparent, tile: '.' };

    let empty: Cell<char> = Cell { things: vec![] };
    assert_eq!(empty.passability(), Passability::Passable);
    assert_eq!(empty.transparency(), Transparency::Transparent);

    let open = Cell { things: vec![floor, floor] };
    assert_eq!(open.passability(), Passability::Passable);
    assert_eq!(open.transparency(), Transparency::Transparent);

    let window = Cell { things: vec![floor, glass] };
    assert_eq!(window.passability(), Passability::Blocked);
    assert_eq!(window.transparency(), Transparency::Transparent);

    let walled = Cell { things: vec![floor, wall, floor] };
    assert_eq!(walled.passability(), Passability::Blocked);
    assert_eq!(walled.transparency(), Transparency::Opaque);
}

#[test]
fn test_pathing_properties_of_cell() {
    let floor =
        Thing { passability: Passability::Passable, transparency: Transparency::Transparent, tile: '.' };
    let wall = Thing { passability: Passability::Blocked, transparency: Transparency::Opaque, tile: '#' };
    let open = Cell { things: vec![floor] };
    let walled = Cell { things: vec![floor, wall] };
    let walker =
        ActorPresence { stationary: 1, passability: Passability::Passable, transparency: Transparency::Opaque };
    let idle = ActorPresence { stationary: 2, ..walker };

    let p = PathingProperties::of_cell(&open, None);
    assert_eq!(p, PathingProperties { dijkstra_state: DijkstraState::Passable, transparency: Transparency::Transparent });
    assert!(p.passable());
    assert_eq!(p, PathingProperties::default());

    let p = PathingProperties::of_cell(&open, Some(walker));
    assert_eq!(p.to_dijkstra_state(), DijkstraState::Passable);
    assert_eq!(p.to_transparency(), Transparency::Opaque);

    let p = PathingProperties::of_cell(&open, Some(idle));
    assert_eq!(p.to_passability(), Passability::Blocked);
    assert!(!p.passable());

    let p = PathingProperties::of_cell(&walled, None);
    assert_eq!(p, PathingProperties { dijkstra_state: DijkstraState::Blocked, transparency: Transparency::Opaque });

    let goal = PathingProperties { dijkstra_state: DijkstraState::Goal(0), transparency: Transparency::Opaque };
    assert!(goal.passable());
    assert_eq!(goal.to_passability(), Passability::Passable);
}

#[test]
fn test_idle_goal() {
    let mut goal = IdleGoal::new(2);
    assert_eq!(goal.update(), GoalState::InProgress);
    assert_eq!(goal.update(), GoalState::InProgress);
    assert_eq!(goal.update(), GoalState::Complete);
    assert_eq!(goal.update(), GoalState::Complete);
    let mut goal = IdleGoal::new(0);
    assert_eq!(goal.update(), GoalState::Complete);
}

#[test]
fn test_centered_view() {
    // Centered in the middle of the zone.
    let r = centered_view((50, 50), (21, 11), (255, 255));
    assert_eq!((r.x, r.y, r.width, r.height), (40, 45, 21, 11));
    // Pushed back inside at the top left corner.
    let r = centered_view((2, 3), (21, 11), (255, 255));
    assert_eq!((r.x, r.y), (0, 0));
    // Pushed back inside at the bottom right corner.
    let r = centered_view((254, 250), (21, 11), (255, 255));
    assert_eq!((r.x, r.y), (234, 244));
}

#[test]
fn test_direction_cardinal_sectors_and_wrapping() {
    // 26.6 degrees from west, 63.4 from south.
    assert_eq!(Direction::closest_cardinal_direction((0, 0), (-2, 1)), dir(Orientation::West));
    assert_eq!(Direction::closest_cardinal_direction((0, 0), (-1, 2)), dir(Orientation::South));
    assert_eq!(Direction::closest_cardinal_direction((0, 0), (1, 1)), dir(Orientation::South));
    assert_eq!(Direction::closest_cardinal_direction((0, 0), (-1, 1)), dir(Orientation::West));
    assert_eq!(Direction::closest_cardinal_direction((0, 0), (-1, -1)), dir(Orientation::North));
    assert_eq!(Direction::closest_cardinal_direction((0, 0), (1, -1)), dir(Orientation::East));
    let north = dir(Orientation::North);
    assert_eq!(north.counter_clockwise(1), dir(Orientation::Northwest));
    assert_eq!(north.counter_clockwise(10), dir(Orientation::West));
    assert_eq!(north.clockwise(-1), dir(Orientation::Northwest));
    assert_eq!(north.clockwise(i32::MAX), dir(Orientation::Northwest));
    assert_eq!(north.counter_clockwise(i32::MIN), north);
}

#[test]
fn test_rect_perimeter_points_right_edge() {
    let r = Rect::new((0, 0), 4, 3);
    let mut pts = vec![];
    r.push_perimeter_points(&mut pts);
    assert_eq!(pts.len(), 10);
    let mut sorted = pts.clone();
    sorted.sort();
    let mut expected =
        vec![(0, 0), (1, 0), (2, 0), (3, 0), (0, 1), (3, 1), (0, 2), (1, 2), (2, 2), (3, 2)];
    expected.sort();
    assert_eq!(sorted, expected);
}

#[test]
fn test_lines_long_and_extreme() {
    let line = Lines::dda((0, 0), (100000, 0));
    assert_eq!(line.len(), 100001);
    assert_eq!(line[100000], (100000, 0));
    let line = Lines::dda((0, 0), (40000, 3));
    assert_eq!(line.len(), 40001);
    assert_eq!(line[0], (0, 0));
    assert_eq!(line[40000], (40000, 3));
    let line = Lines::bresenham((i32::MAX - 2, i32::MIN), (i32::MAX, i32::MIN + 1));
    assert_eq!(line, vec![(i32::MAX - 2, i32::MIN), (i32::MAX - 1, i32::MIN), (i32::MAX, i32::MIN + 1)]);
    let line = Lines::dda((i32::MAX, i32::MAX), (i32::MAX - 1, i32::MAX));
    assert_eq!(line, vec![(i32::MAX, i32::MAX), (i32::MAX - 1, i32::MAX)]);
}

#[test]
fn test_translate_map() {
    let mut grid_map: GridMap<u32> = GridMap::new((10, 10));
    *grid_map.get_xy_mut((1, 0)) = 10;
    *grid_map.get_xy_mut((5, 5)) = 10;

    let translate_map = TranslateMap::new(&mut grid_map, None::<MapTranslation<fn((i32, i32)) -> (i32, i32)>>);
    assert_eq!(*translate_map.get_xy((1, 0)), 10);
    assert_eq!(*translate_map.get_xy((5, 5)), 10);

    let translation: MapTranslation<fn((i32, i32)) -> (i32, i32)> =
        MapTranslation::SubSection(Rect::new((1, 0), 10, 10));
    let translate_map = TranslateMap::new(&mut grid_map, Some(translation));
    assert_eq!(*translate_map.get(0), 10);
    assert_eq!(*translate_map.get_xy((4, 5)), 10);

    let translation = MapTranslation::Lambda(|(x, y): (i32, i32)| (x + 1, y));
    let translate_map = TranslateMap::new(&mut grid_map, Some(translation));
    assert_eq!(*translate_map.get(0), 10);
    assert_eq!(*translate_map.get_xy((4, 5)), 10);
    assert_eq!(translate_trait_func(&translate_map), 10);
    assert_eq!(translate_dyn_trait_func(&translate_map), 10);
}

fn translate_trait_func<M, T>(obj: &M) -> T
where
    T: Map2dType,
    M: Map2dView<Type = T>,
{
    obj.get_xy((4, 5)).clone()
}

fn translate_dyn_trait_func<T>(obj: &dyn Map2dView<Type = T>) -> T
where
    T: Map2dType,
{
    obj.get_xy((4, 5)).clone()
}

#[test]
fn test_translate_map_writes_base() {
    let mut grid_map: GridMap<u32> = GridMap::new((6, 4));
    {
        let translation: MapTranslation<fn((i32, i32)) -> (i32, i32)> =
            MapTranslation::SubSection(Rect::new((2, 1), 3, 2));
        let mut translate_map = TranslateMap::new(&mut grid_map, Some(translation));
        assert_eq!(translate_map.width(), 6);
        assert_eq!(translate_map.height(), 4);
        *translate_map.get_xy_mut((1, 1)) = 7;
        // Index 8 is the coord (2, 1), moved to the base coord (4, 2), base index 16.
        *translate_map.get_mut(8) = 9;
        assert!(translate_map.translation().is_some());
    }
    assert_eq!(*grid_map.get_xy((3, 2)), 7);
    assert_eq!(*grid_map.get(16), 9);
    assert_eq!(*grid_map.get_xy((4, 2)), 9);
    {
        let translation = MapTranslation::Lambda(|(x, y): (i32, i32)| (y, x));
        let mut translate_map = TranslateMap::new(&mut grid_map, Some(translation));
        *translate_map.get_xy_mut((0, 5)) = 3;
        assert_eq!(*translate_map.get_xy((2, 4)), 9);
    }
    assert_eq!(*grid_map.get_xy((5, 0)), 3);
}
