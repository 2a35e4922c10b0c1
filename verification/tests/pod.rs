use rdmalib::pod::zeroed_vec;
use rdmalib::RemoteSafe;

#[derive(Clone, Copy, Debug, PartialEq)]
struct Sample {
    voltage: f32,
    index: u32,
}

impl RemoteSafe for Sample {
    fn zeroed() -> Self {
        Sample {
            voltage: 0.0,
            index: 0,
        }
    }

    fn elem_type() -> String {
        "pod::Sample".into()
    }
}

#[derive(Clone, Copy, Debug, PartialEq)]
struct Float(f64);

impl RemoteSafe for Float {
    fn zeroed() -> Self {
        Float(0.0)
    }

    fn elem_type() -> String {
        "f64".into()
    }
}

#[test]
fn zeroed_vec_is_all_zeros() {
    let ints: Vec<u32> = zeroed_vec(4);
    assert_eq!(ints, vec![0, 0, 0, 0]);

    let samples: Vec<Sample> = zeroed_vec(2);
    assert_eq!(samples, vec![Sample { voltage: 0.0, index: 0 }; 2]);

    let arrays: Vec<[u64; 2]> = zeroed_vec(3);
    assert_eq!(arrays, vec![[0, 0]; 3]);
}

#[test]
fn primitives_structs_and_arrays_are_remote_safe() {
    fn assert_remote_safe<T: RemoteSafe>() {}
    assert_remote_safe::<u8>();
    assert_remote_safe::<Float>();
    assert_remote_safe::<Sample>();
    assert_remote_safe::<[Sample; 4]>();
    assert_remote_safe::<[[u8; 2]; 8]>();
}

#[test]
fn every_primitive_is_zero_and_named() {
    fn assert_zero<T: RemoteSafe + PartialEq + std::fmt::Debug>(zero: T, name: &str) {
        assert_eq!(T::zeroed(), zero);
        assert_eq!(T::elem_type(), name);
    }
    assert_zero(0u8, "u8");
    assert_zero(0u16, "u16");
    assert_zero(0u32, "u32");
    assert_zero(0u64, "u64");
    assert_zero(0u128, "u128");
    assert_zero(0usize, "usize");
    assert_zero(0i8, "i8");
    assert_zero(0i16, "i16");
    assert_zero(0i32, "i32");
    assert_zero(0i64, "i64");
    assert_zero(0i128, "i128");
    assert_zero(0isize, "isize");
    assert_zero([0u32; 5], "[u32; 5]");
    assert_zero([[0u8; 2]; 12], "[[u8; 2]; 12]");
}
