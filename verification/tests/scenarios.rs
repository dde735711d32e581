use particle_engine::element::Element;
use particle_engine::scenario::light_element;
use particle_engine::simulation::Simulation;

fn edges(sim: &Simulation) -> Vec<(usize, usize, u8)> {
    sim.bonds().iter().map(|b| (b.atom_a, b.atom_b, b.order)).collect()
}

#[test]
fn init_water_builds_bonded_molecules() {
    let mut sim = Simulation::new();
    sim.add_atom(Element::Sodium);
    sim.init_water(2);
    assert_eq!(sim.atom_count(), 6);
    let kinds: Vec<Element> = sim.atoms().iter().map(|a| a.element).collect();
    assert_eq!(
        kinds,
        vec![
            Element::Oxygen,
            Element::Hydrogen,
            Element::Hydrogen,
            Element::Oxygen,
            Element::Hydrogen,
            Element::Hydrogen,
        ]
    );
    assert_eq!(edges(&sim), vec![(0, 1, 1), (0, 2, 1), (3, 4, 1), (3, 5, 1)]);
    assert_eq!(sim.atoms()[0].bonds, vec![1, 2]);
    assert_eq!(sim.atoms()[1].bonds, vec![0]);
    assert_eq!(sim.atoms()[5].bonds, vec![3]);
    assert_eq!(sim.next_id(), 6);
}

#[test]
fn init_water_of_nothing_is_empty() {
    let mut sim = Simulation::new();
    sim.add_atom(Element::Carbon);
    sim.init_water(0);
    assert_eq!(sim.atom_count(), 0);
    assert_eq!(sim.bond_count(), 0);
}

#[test]
fn init_salt_alternates_ions() {
    let mut sim = Simulation::new();
    sim.init_salt(3);
    let kinds: Vec<Element> = sim.atoms().iter().map(|a| a.element).collect();
    assert_eq!(
        kinds,
        vec![
            Element::Sodium,
            Element::Chlorine,
            Element::Sodium,
            Element::Chlorine,
            Element::Sodium,
            Element::Chlorine,
        ]
    );
    assert_eq!(sim.bond_count(), 0);
}

#[test]
fn init_organic_builds_methane() {
    let mut sim = Simulation::new();
    sim.init_organic(2);
    assert_eq!(sim.atom_count(), 10);
    for (i, atom) in sim.atoms().iter().enumerate() {
        let expected = if i % 5 == 0 { Element::Carbon } else { Element::Hydrogen };
        assert_eq!(atom.element, expected);
    }
    assert_eq!(
        edges(&sim),
        vec![
            (0, 1, 1),
            (0, 2, 1),
            (0, 3, 1),
            (0, 4, 1),
            (5, 6, 1),
            (5, 7, 1),
            (5, 8, 1),
            (5, 9, 1),
        ]
    );
    assert_eq!(sim.atoms()[5].bonds, vec![6, 7, 8, 9]);
    assert!(!sim.can_bond(0));
    assert!(!sim.can_bond(9));
}

#[test]
fn init_random_draws_light_kinds() {
    let mut sim = Simulation::new();
    sim.init_random(200);
    assert_eq!(sim.atom_count(), 200);
    assert_eq!(sim.bond_count(), 0);
    let light = [Element::Hydrogen, Element::Carbon, Element::Nitrogen, Element::Oxygen];
    for atom in sim.atoms() {
        assert!(light.contains(&atom.element));
        assert!(atom.bonds.is_empty());
    }
}

#[test]
fn light_element_table() {
    assert_eq!(light_element(0), Some(Element::Hydrogen));
    assert_eq!(light_element(1), Some(Element::Carbon));
    assert_eq!(light_element(2), Some(Element::Nitrogen));
    assert_eq!(light_element(3), Some(Element::Oxygen));
    assert_eq!(light_element(4), None);
    assert_eq!(light_element(usize::MAX), None);
}
