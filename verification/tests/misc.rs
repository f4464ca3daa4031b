use distaff::crypto::{ blake3, HashFunction };
use distaff::math::field;
use distaff::programs::inputs::ProgramInputs;
use distaff::stark::fri::utils::{ get_augmented_positions, hash_values };
use distaff::stark::options::ProofOptions;
use distaff::utils::sponge::{ add_constants, sub_constants, ARK };

#[test]
fn field_operations() {
    let p = field::MODULUS;
    assert_eq!(3, field::add(1, 2));
    assert_eq!(0, field::add(p - 1, 1));
    assert_eq!(p - 2, field::sub(3, 5));
    assert_eq!(6, field::mul(2, 3));
    assert_eq!(p - 1, field::mul(p - 1, 1));
    assert_eq!(1, field::mul(p - 1, p - 1));
    assert_eq!(1024, field::exp(2, 10));
    assert_eq!(1, field::mul(field::inv(7), 7));
    assert_eq!(p - 7, field::neg(7));
}

#[test]
fn blake3_digests() {
    let mut d = [0u8; 32];
    blake3(b"abc", &mut d);
    assert_eq!(*::blake3::hash(b"abc").as_bytes(), d);
    assert_ne!([0u8; 32], d);
}

#[test]
fn proof_options() {
    let options = ProofOptions::new(32, 40, 16, HashFunction::Blake3);
    assert_eq!(32, options.extension_factor());
    assert_eq!(40, options.num_queries());
    assert_eq!(16, options.grinding_factor());
    assert_eq!(HashFunction::Blake3, options.hash_fn());
    // log2(32 / 8) = 2; 2 * 40 = 80, which is raised by the grinding factor
    assert_eq!(96, options.security_level(true));
    assert_eq!(40, options.security_level(false));

    let options = ProofOptions::default();
    assert_eq!(32, options.extension_factor());
    assert_eq!(50, options.num_queries());
    assert_eq!(20, options.grinding_factor());
    assert_eq!(120, options.security_level(true));
}

#[test]
fn program_inputs() {
    let inputs = ProgramInputs::new(&[1, 2], &[3, 4, 5], &[6]);
    assert_eq!(&[1, 2], inputs.get_public_inputs());
    assert_eq!(vec![3, 4, 5], inputs.get_secret_inputs()[0]);
    assert_eq!(vec![6], inputs.get_secret_inputs()[1]);

    let inputs = ProgramInputs::from_public(&[9]);
    assert_eq!(&[9], inputs.get_public_inputs());
    assert!(inputs.get_secret_inputs()[0].is_empty());

    let inputs = ProgramInputs::none();
    assert!(inputs.get_public_inputs().is_empty());
}

#[test]
fn fri_utilities() {
    assert_eq!(vec![1, 3, 0], get_augmented_positions(&[1, 3, 5, 8, 7], 16));

    let values = vec![[1u128, 2, 3, 4], [5, 6, 7, 8]];
    let hashes = hash_values(&values, HashFunction::Blake3);
    let mut bytes = Vec::new();
    for v in values[0].iter() {
        bytes.extend_from_slice(&v.to_le_bytes());
    }
    assert_eq!(*::blake3::hash(&bytes).as_bytes(), hashes[0]);
    assert_ne!(hashes[0], hashes[1]);
}

#[test]
fn sub_constants_undoes_add_constants() {
    let original = [1u128, 2, 3, field::MODULUS - 1];
    let mut state = original;
    add_constants(&mut state, 5, 4);
    assert_eq!(field::add(1, ARK[4][5]), state[0]);
    assert_eq!(field::add(field::MODULUS - 1, ARK[7][5]), state[3]);
    let column: Vec<u128> = ARK.iter().map(|row| row[5]).collect();
    sub_constants(&mut state, &column, 4);
    assert_eq!(original, state);
}
