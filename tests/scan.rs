use postmouse_autosplitter::resolver::resolve;
use postmouse_autosplitter::signature::{world_signature, Signature};

fn world_bytes() -> Vec<u8> {
    vec![0x80, 0x7C, 0x24, 0x00, 0x00, 0x90, 0x90, 0x48, 0x8B, 0x3D, 0x10, 0x00, 0x00, 0x00, 0x48]
}

#[test]
fn scan_finds_lowest_match() {
    let sig = Signature::new(vec![Some(1), None, Some(3)]);
    let hay = [0u8, 1, 9, 3, 1, 7, 3];
    assert_eq!(sig.scan(&hay), Some(1));
    assert!(sig.matches_at(&hay, 4));
    assert!(!sig.matches_at(&hay, 0));
    assert!(!sig.matches_at(&hay, 5));
}

#[test]
fn scan_misses() {
    let sig = Signature::new(vec![Some(1), None, Some(3)]);
    assert_eq!(sig.scan(&[1u8, 2, 4, 1, 3]), None);
    assert_eq!(sig.scan(&[1u8, 3]), None);
    assert_eq!(sig.scan(&[]), None);
}

#[test]
fn match_at_the_very_end() {
    let sig = Signature::new(vec![None, Some(0xFF)]);
    assert_eq!(sig.scan(&[0u8, 0, 0, 0xFF]), Some(2));
}

#[test]
fn world_signature_has_fifteen_cells() {
    let sig = world_signature();
    assert_eq!(sig.cells.len(), 15);
    assert_eq!(sig.cells[3], None);
    assert_eq!(sig.cells[14], Some(0x48));
    let mut module = vec![0u8; 0x40];
    module.extend(world_bytes());
    assert_eq!(sig.scan(&module), Some(0x40));
}

#[test]
fn resolves_fake_module() {
    let mut module = vec![0u8; 0x100];
    module.extend(world_bytes());
    module.extend(vec![0u8; 0x40]);
    module[0x10A] = 0x20;
    assert_eq!(resolve(0, &module), Some(0x100 + 0xA + 0x4 + 0x20));
    assert_eq!(resolve(0x1_4000_0000, &module), Some(0x1_4000_012E));
}

#[test]
fn resolves_displacement_as_written() {
    let mut module = vec![0u8; 0x100];
    module.extend(world_bytes());
    assert_eq!(resolve(0, &module), Some(0x100 + 0xA + 0x4 + 0x10));
}

#[test]
fn negative_displacement() {
    let mut module = vec![0u8; 0x100];
    module.extend(world_bytes());
    module[0x10A] = 0xF0;
    module[0x10B] = 0xFF;
    module[0x10C] = 0xFF;
    module[0x10D] = 0xFF;
    assert_eq!(resolve(0x1000, &module), Some(0x1000 + 0x10E - 0x10));
    assert_eq!(resolve(0, &module), Some(0xFE));
}

#[test]
fn target_below_zero_is_not_resolved() {
    let mut module = world_bytes();
    module[10] = 0x00;
    module[11] = 0x00;
    module[12] = 0x00;
    module[13] = 0x80;
    assert_eq!(resolve(0, &module), None);
}

#[test]
fn first_of_two_matches_wins() {
    let mut module = vec![0u8; 0x10];
    module.extend(world_bytes());
    module.extend(world_bytes());
    module[0x10 + 15 + 10] = 0x55;
    assert_eq!(resolve(0, &module), Some(0x10 + 0xE + 0x10));
}

#[test]
fn no_match_never_resolves() {
    let module = vec![0x48u8; 0x400];
    assert_eq!(resolve(0x1000, &module), None);
    let mut truncated = vec![0u8; 0x20];
    truncated.extend(&world_bytes()[..14]);
    assert_eq!(resolve(0, &truncated), None);
}
