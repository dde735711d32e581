use particle_engine::orbital::QuantumNumbers;
use particle_engine::quark::{ColorCharge, HadronType, QuarkFlavor};
use particle_engine::text::{digit_char, push_decimal, push_signed_decimal};

#[test]
fn quantum_numbers_accepts_orbitals() {
    assert_eq!(QuantumNumbers::new(1, 0, 0), Some(QuantumNumbers { n: 1, l: 0, m: 0 }));
    assert_eq!(QuantumNumbers::new(3, 2, -2), Some(QuantumNumbers { n: 3, l: 2, m: -2 }));
    assert_eq!(QuantumNumbers::new(3, 2, 2), Some(QuantumNumbers { n: 3, l: 2, m: 2 }));
}

#[test]
fn quantum_numbers_rejects_the_rest() {
    assert_eq!(QuantumNumbers::new(0, 0, 0), None);
    assert_eq!(QuantumNumbers::new(1, 1, 0), None);
    assert_eq!(QuantumNumbers::new(2, 1, 2), None);
    assert_eq!(QuantumNumbers::new(2, 1, -2), None);
    assert_eq!(QuantumNumbers::new(2, 0, 1), None);
    assert_eq!(QuantumNumbers::new(u32::MAX, 5, i32::MIN), None);
}

#[test]
fn quantum_numbers_at_the_edge_of_the_range() {
    let l = 1u32 << 31;
    assert_eq!(
        QuantumNumbers::new(u32::MAX, l, i32::MIN),
        Some(QuantumNumbers { n: u32::MAX, l, m: i32::MIN })
    );
    assert_eq!(QuantumNumbers::new(u32::MAX, l - 1, i32::MIN), None);
}

#[test]
fn orbital_names() {
    assert_eq!(QuantumNumbers::s1().name(), "1s+0");
    assert_eq!(QuantumNumbers::p2_1().name(), "2p+1");
    assert_eq!(QuantumNumbers::p2_m1().name(), "2p-1");
    assert_eq!(QuantumNumbers::d3_2().name(), "3d+2");
    assert_eq!(QuantumNumbers { n: 4, l: 3, m: -3 }.name(), "4f-3");
    assert_eq!(QuantumNumbers { n: 12, l: 10, m: -10 }.name(), "12g-10");
    assert_eq!(
        QuantumNumbers { n: u32::MAX, l: 4, m: i32::MIN }.name(),
        "4294967295g-2147483648"
    );
}

#[test]
fn orbital_presets() {
    assert_eq!(QuantumNumbers::s1(), QuantumNumbers { n: 1, l: 0, m: 0 });
    assert_eq!(QuantumNumbers::s2(), QuantumNumbers { n: 2, l: 0, m: 0 });
    assert_eq!(QuantumNumbers::p2_0(), QuantumNumbers { n: 2, l: 1, m: 0 });
    assert_eq!(QuantumNumbers::p2_1(), QuantumNumbers { n: 2, l: 1, m: 1 });
    assert_eq!(QuantumNumbers::p2_m1(), QuantumNumbers { n: 2, l: 1, m: -1 });
    assert_eq!(QuantumNumbers::s3(), QuantumNumbers { n: 3, l: 0, m: 0 });
    assert_eq!(QuantumNumbers::p3_0(), QuantumNumbers { n: 3, l: 1, m: 0 });
    assert_eq!(QuantumNumbers::d3_0(), QuantumNumbers { n: 3, l: 2, m: 0 });
    assert_eq!(QuantumNumbers::d3_1(), QuantumNumbers { n: 3, l: 2, m: 1 });
    assert_eq!(QuantumNumbers::d3_2(), QuantumNumbers { n: 3, l: 2, m: 2 });
}

#[test]
fn decimal_numerals() {
    let mut out = String::from("x");
    push_decimal(&mut out, 0);
    push_decimal(&mut out, 907);
    push_signed_decimal(&mut out, -45);
    push_signed_decimal(&mut out, 0);
    push_decimal(&mut out, u64::MAX);
    assert_eq!(out, "x0907-45+018446744073709551615");
    assert_eq!(digit_char(0), '0');
    assert_eq!(digit_char(9), '9');
}

#[test]
fn anti_swaps_colour_and_anticolour() {
    assert_eq!(ColorCharge::Red.anti(), ColorCharge::AntiRed);
    assert_eq!(ColorCharge::Green.anti(), ColorCharge::AntiGreen);
    assert_eq!(ColorCharge::Blue.anti(), ColorCharge::AntiBlue);
    assert_eq!(ColorCharge::AntiRed.anti(), ColorCharge::Red);
    assert_eq!(ColorCharge::AntiGreen.anti(), ColorCharge::Green);
    assert_eq!(ColorCharge::AntiBlue.anti(), ColorCharge::Blue);
}

#[test]
fn neutralizes_exactly_the_opposite() {
    let all = [
        ColorCharge::Red,
        ColorCharge::Green,
        ColorCharge::Blue,
        ColorCharge::AntiRed,
        ColorCharge::AntiGreen,
        ColorCharge::AntiBlue,
    ];
    for a in all {
        for b in all {
            assert_eq!(a.neutralizes(&b), b == a.anti());
        }
        assert_eq!(a.anti().anti(), a);
    }
}

#[test]
fn quark_charges_and_symbols() {
    let all = [
        QuarkFlavor::Up,
        QuarkFlavor::Down,
        QuarkFlavor::Charm,
        QuarkFlavor::Strange,
        QuarkFlavor::Top,
        QuarkFlavor::Bottom,
    ];
    let charges: Vec<i32> = all.iter().map(|f| f.charge_thirds()).collect();
    assert_eq!(charges, vec![2, -1, 2, -1, 2, -1]);
    let symbols: Vec<&str> = all.iter().map(|f| f.symbol()).collect();
    assert_eq!(symbols, vec!["u", "d", "c", "s", "t", "b"]);
}

#[test]
fn hadron_names() {
    assert_eq!(HadronType::Proton.name(), "Proton");
    assert_eq!(HadronType::Neutron.name(), "Neutron");
    assert_eq!(HadronType::PionPlus.name(), "π+");
    assert_eq!(HadronType::PionMinus.name(), "π-");
    assert_eq!(HadronType::PionZero.name(), "π0");
    assert_eq!(HadronType::Kaon.name(), "K");
    assert_eq!(HadronType::Jpsi.name(), "J/ψ");
}
