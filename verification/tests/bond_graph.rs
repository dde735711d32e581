use particle_engine::bond::Bond;
use particle_engine::element::Element;
use particle_engine::proximity::Proximity;
use particle_engine::simulation::Simulation;

fn symmetric(sim: &Simulation) -> bool {
    let atoms = sim.atoms();
    for a in 0..atoms.len() {
        for b in 0..atoms.len() {
            if atoms[a].bonds.contains(&b) != atoms[b].bonds.contains(&a) {
                return false;
            }
        }
    }
    true
}

fn within_valence(sim: &Simulation) -> bool {
    sim.atoms().iter().all(|a| a.bonds.len() <= a.element.max_bonds())
}

#[test]
fn new_store_is_empty() {
    let sim = Simulation::new();
    assert_eq!(sim.atom_count(), 0);
    assert_eq!(sim.bond_count(), 0);
    assert_eq!(sim.next_id(), 0);
    assert!(sim.atom(0).is_none());
}

#[test]
fn default_store_is_empty() {
    let sim = Simulation::default();
    assert_eq!(sim.atom_count(), 0);
    assert_eq!(sim.bond_count(), 0);
}

#[test]
fn add_atom_numbers_particles_in_order() {
    let mut sim = Simulation::new();
    assert_eq!(sim.add_atom(Element::Carbon), 0);
    assert_eq!(sim.add_atom(Element::Hydrogen), 1);
    assert_eq!(sim.add_atom(Element::Sodium), 2);
    assert_eq!(sim.atom_count(), 3);
    assert_eq!(sim.next_id(), 3);
    let atoms = sim.atoms();
    assert_eq!(atoms[0].element, Element::Carbon);
    assert_eq!(atoms[1].element, Element::Hydrogen);
    assert_eq!(atoms[2].element, Element::Sodium);
    for (i, atom) in atoms.iter().enumerate() {
        assert_eq!(atom.id, i);
        assert!(atom.bonds.is_empty());
    }
}

#[test]
fn clear_resets_the_counter() {
    let mut sim = Simulation::new();
    let a = sim.add_atom(Element::Oxygen);
    let b = sim.add_atom(Element::Hydrogen);
    assert!(sim.create_bond(a, b));
    sim.clear();
    assert_eq!(sim.atom_count(), 0);
    assert_eq!(sim.bond_count(), 0);
    assert_eq!(sim.next_id(), 0);
    assert_eq!(sim.add_atom(Element::Nitrogen), 0);
}

#[test]
fn create_bond_updates_both_partner_lists() {
    let mut sim = Simulation::new();
    let o = sim.add_atom(Element::Oxygen);
    let h = sim.add_atom(Element::Hydrogen);
    assert!(sim.create_bond(o, h));
    assert_eq!(sim.bond_count(), 1);
    let bond: Bond = sim.bonds()[0];
    assert_eq!(bond.atom_a, o);
    assert_eq!(bond.atom_b, h);
    assert_eq!(bond.order, 1);
    assert_eq!(sim.atoms()[o].bonds, vec![h]);
    assert_eq!(sim.atoms()[h].bonds, vec![o]);
    assert!(sim.are_bonded(o, h));
    assert!(sim.are_bonded(h, o));
}

#[test]
fn create_bond_succeeds_once_per_pair() {
    let mut sim = Simulation::new();
    let c = sim.add_atom(Element::Carbon);
    let n = sim.add_atom(Element::Nitrogen);
    assert!(sim.create_bond(c, n));
    assert!(!sim.create_bond(c, n));
    assert!(!sim.create_bond(n, c));
    assert_eq!(sim.bond_count(), 1);
    assert_eq!(sim.atoms()[c].bonds, vec![n]);
    assert_eq!(sim.atoms()[n].bonds, vec![c]);
}

#[test]
fn create_bond_refuses_a_full_particle() {
    let mut sim = Simulation::new();
    let h = sim.add_atom(Element::Hydrogen);
    let c = sim.add_atom(Element::Carbon);
    let o = sim.add_atom(Element::Oxygen);
    assert_eq!(Element::Hydrogen.max_bonds(), 1);
    assert!(sim.create_bond(h, c));
    assert!(!sim.create_bond(h, o));
    assert!(!sim.create_bond(o, h));
    assert_eq!(sim.bond_count(), 1);
    assert_eq!(sim.atoms()[h].bonds, vec![c]);
    assert_eq!(sim.atoms()[c].bonds, vec![h]);
    assert!(sim.atoms()[o].bonds.is_empty());
    assert!(!sim.are_bonded(h, o));
}

#[test]
fn create_bond_fills_carbon_with_four() {
    let mut sim = Simulation::new();
    let c = sim.add_atom(Element::Carbon);
    let mut hs = Vec::new();
    for _ in 0..5 {
        hs.push(sim.add_atom(Element::Hydrogen));
    }
    for k in 0..4 {
        assert!(sim.can_bond(c));
        assert!(sim.create_bond(c, hs[k]));
    }
    assert!(!sim.can_bond(c));
    assert!(!sim.create_bond(c, hs[4]));
    assert_eq!(sim.atoms()[c].bonds, vec![1, 2, 3, 4]);
    assert_eq!(sim.bond_count(), 4);
    assert!(within_valence(&sim));
    assert!(symmetric(&sim));
}

#[test]
fn create_bond_refuses_missing_particles() {
    let mut sim = Simulation::new();
    let a = sim.add_atom(Element::Carbon);
    assert!(!sim.create_bond(a, 1));
    assert!(!sim.create_bond(7, a));
    assert!(!sim.create_bond(usize::MAX, usize::MAX));
    assert_eq!(sim.bond_count(), 0);
    assert!(sim.atoms()[a].bonds.is_empty());
}

#[test]
fn create_bond_refuses_a_particle_with_itself() {
    let mut sim = Simulation::new();
    let c = sim.add_atom(Element::Carbon);
    assert!(!sim.create_bond(c, c));
    assert_eq!(sim.bond_count(), 0);
    assert!(sim.atoms()[c].bonds.is_empty());
}

#[test]
fn create_bond_refuses_charges_of_one_sign() {
    let mut sim = Simulation::new();
    let na1 = sim.add_atom(Element::Sodium);
    let na2 = sim.add_atom(Element::Sodium);
    let cl1 = sim.add_atom(Element::Chlorine);
    let cl2 = sim.add_atom(Element::Chlorine);
    assert!(!sim.create_bond(na1, na2));
    assert!(!sim.create_bond(cl1, cl2));
    assert_eq!(sim.bond_count(), 0);
    assert!(sim.create_bond(na1, cl1));
    assert!(sim.create_bond(cl2, na2));
    assert_eq!(sim.bond_count(), 2);
    assert!(!sim.are_bonded(na1, na2));
    assert!(!sim.are_bonded(cl1, cl2));
}

#[test]
fn create_bond_joins_an_ion_and_a_neutral_particle() {
    let mut sim = Simulation::new();
    let na = sim.add_atom(Element::Sodium);
    let o = sim.add_atom(Element::Oxygen);
    assert!(sim.create_bond(na, o));
    assert_eq!(sim.atoms()[o].bonds, vec![na]);
}

#[test]
fn atom_lookup_fails_closed() {
    let mut sim = Simulation::new();
    let h = sim.add_atom(Element::Hydrogen);
    let found = sim.atom(h).expect("the particle exists");
    assert_eq!(found.element, Element::Hydrogen);
    assert_eq!(found.id, h);
    assert!(found.can_bond());
    assert!(sim.atom(1).is_none());
    assert!(!sim.can_bond(1));
}

#[test]
fn two_close_neutral_particles_bond_in_one_pass() {
    // Two oxygens, radius 0.3 each, 0.5 apart and at rest.
    let radius = Element::Oxygen.radius_hundredths() as f32 / 100.0;
    assert_eq!(radius, 0.3);
    let positions = [(0.0f32, 0.0f32), (0.5f32, 0.0f32)];
    let velocities = [(0.0f32, 0.0f32), (0.0f32, 0.0f32)];
    let bond_distance = 1.2f32;
    let max_bonding_speed = 2.0f32;

    let mut sim = Simulation::new();
    let a = sim.add_atom(Element::Oxygen);
    let b = sim.add_atom(Element::Oxygen);

    let dx = positions[b].0 - positions[a].0;
    let dy = positions[b].1 - positions[a].1;
    let dist = (dx * dx + dy * dy).sqrt();
    let dvx = velocities[b].0 - velocities[a].0;
    let dvy = velocities[b].1 - velocities[a].1;
    let speed = (dvx * dvx + dvy * dvy).sqrt();
    let threshold = (radius + radius) * bond_distance;
    assert!(threshold > 0.5);

    let mut near = Proximity::new(sim.atom_count());
    if dist < threshold && speed < max_bonding_speed {
        assert!(near.mark(a, b));
    }
    sim.try_form_bonds(&near);

    assert_eq!(sim.bond_count(), 1);
    assert_eq!(sim.atoms()[a].bonds, vec![b]);
    assert_eq!(sim.atoms()[b].bonds, vec![a]);

    // A second pass over the same table makes nothing new.
    sim.try_form_bonds(&near);
    assert_eq!(sim.bond_count(), 1);
}

#[test]
fn formation_pass_ignores_unmarked_pairs() {
    let mut sim = Simulation::new();
    sim.add_atom(Element::Oxygen);
    sim.add_atom(Element::Oxygen);
    let near = Proximity::new(2);
    sim.try_form_bonds(&near);
    assert_eq!(sim.bond_count(), 0);
}

#[test]
fn formation_pass_is_greedy_in_index_order() {
    // A hydrogen near two carbons bonds with the one of smaller index.
    let mut sim = Simulation::new();
    let c1 = sim.add_atom(Element::Carbon);
    let h = sim.add_atom(Element::Hydrogen);
    let c2 = sim.add_atom(Element::Carbon);
    let mut near = Proximity::new(3);
    near.mark(h, c2);
    near.mark(c1, h);
    near.mark(c1, c2);
    sim.try_form_bonds(&near);
    let bonds: Vec<(usize, usize)> = sim.bonds().iter().map(|b| (b.atom_a, b.atom_b)).collect();
    assert_eq!(bonds, vec![(c1, h), (c1, c2)]);
    assert_eq!(sim.atoms()[h].bonds, vec![c1]);
    assert_eq!(sim.atoms()[c1].bonds, vec![h, c2]);
    assert_eq!(sim.atoms()[c2].bonds, vec![c1]);
}

#[test]
fn formation_pass_skips_charges_of_one_sign() {
    let mut sim = Simulation::new();
    let na1 = sim.add_atom(Element::Sodium);
    let na2 = sim.add_atom(Element::Sodium);
    let cl = sim.add_atom(Element::Chlorine);
    let mut near = Proximity::new(3);
    near.mark(na1, na2);
    near.mark(na2, cl);
    sim.try_form_bonds(&near);
    assert_eq!(sim.bond_count(), 1);
    assert!(sim.are_bonded(na2, cl));
    assert!(!sim.are_bonded(na1, na2));
}

#[test]
fn formation_pass_keeps_the_laws_on_a_crowd() {
    // Every pair is marked: valence alone decides.
    let kinds = [
        Element::Hydrogen,
        Element::Carbon,
        Element::Nitrogen,
        Element::Oxygen,
        Element::Sodium,
        Element::Chlorine,
        Element::Sodium,
        Element::Hydrogen,
        Element::Carbon,
        Element::Chlorine,
    ];
    let mut sim = Simulation::new();
    for k in kinds {
        sim.add_atom(k);
    }
    let n = sim.atom_count();
    let mut near = Proximity::new(n);
    for i in 0..n {
        for j in (i + 1)..n {
            near.mark(i, j);
        }
    }
    sim.try_form_bonds(&near);
    assert!(symmetric(&sim));
    assert!(within_valence(&sim));
    let bonds = sim.bonds();
    for (k, x) in bonds.iter().enumerate() {
        assert_ne!(x.atom_a, x.atom_b);
        let qa = sim.atoms()[x.atom_a].charge();
        let qb = sim.atoms()[x.atom_b].charge();
        assert!(qa * qb <= 0);
        for y in bonds.iter().skip(k + 1) {
            assert!(!y.connects(x.atom_a, x.atom_b));
        }
    }
    // H(0) takes C(1); C(1) then takes N(2), O(3), Na(4) and is full.
    assert_eq!(sim.atoms()[1].bonds, vec![0, 2, 3, 4]);
    let before = sim.bond_count();
    sim.try_form_bonds(&near);
    assert!(sim.bond_count() >= before);
    assert!(within_valence(&sim));
}

#[test]
fn formation_pass_with_a_smaller_table_reads_what_it_covers() {
    let mut sim = Simulation::new();
    sim.add_atom(Element::Oxygen);
    sim.add_atom(Element::Oxygen);
    sim.add_atom(Element::Oxygen);
    let mut near = Proximity::new(2);
    assert!(near.mark(0, 1));
    assert!(!near.mark(1, 2));
    sim.try_form_bonds(&near);
    assert_eq!(sim.bond_count(), 1);
    assert!(sim.are_bonded(0, 1));
}

#[test]
fn proximity_is_symmetric_and_fails_closed() {
    let mut near = Proximity::new(3);
    assert_eq!(near.size(), 3);
    assert!(!near.is_near(0, 1));
    assert!(near.mark(2, 0));
    assert!(near.is_near(0, 2));
    assert!(near.is_near(2, 0));
    assert!(!near.is_near(0, 1));
    assert!(!near.mark(0, 3));
    assert!(!near.is_near(0, 3));
    assert!(!near.is_near(5, 5));
    let empty = Proximity::new(0);
    assert_eq!(empty.size(), 0);
    assert!(!empty.is_near(0, 0));
}

#[test]
fn bond_new_is_single() {
    let b = Bond::new(3, 8);
    assert_eq!(b.atom_a, 3);
    assert_eq!(b.atom_b, 8);
    assert_eq!(b.order, 1);
    assert!(b.connects(3, 8));
    assert!(b.connects(8, 3));
    assert!(!b.connects(3, 3));
    assert!(!b.connects(8, 9));
}
