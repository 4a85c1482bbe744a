use fuota::fragments::{fragment_size_in_bytes, fragments, pad, padding, redundancy};
use fuota::narrow::{low_byte, low_byte_of_size, low_u16_of_size, low_u32};
use fuota::single::{quotient_ceiling, round_to_single};

/// Lengths and sizes at which single precision begins to round, and their neighbours.
fn lengths() -> Vec<usize> {
    let mut all: Vec<usize> = vec![0, 1, 2, 3, 7, 29, 30, 31, 99, 100, 101, 255, 256, 1000, 65535];
    for shift in 16..64 {
        let power: usize = 1 << shift;
        for offset in 0..4 {
            all.push(power - offset);
            all.push(power + offset);
            all.push(power + power / 2 + offset);
            all.push(power + power / 3 + offset);
        }
    }
    all.push(usize::MAX);
    all
}

#[test]
fn fragment_counts() {
    assert_eq!(fragments(0, 30), 0);
    assert_eq!(fragments(1, 30), 1);
    assert_eq!(fragments(30, 30), 1);
    assert_eq!(fragments(31, 30), 2);
    assert_eq!(fragments(100, 30), 4);
    assert_eq!(fragments(usize::MAX, 1), usize::MAX);
}

#[test]
fn fragment_counts_are_single_precision_quotients() {
    for len in lengths() {
        for size in [1usize, 2, 3, 7, 30, 48, 50, 100, 127, 222, 255, 32767] {
            let expected = (len as f32 / size as f32).ceil() as usize;
            assert_eq!(fragments(len, size), expected, "len {} size {}", len, size);
        }
    }
}

#[test]
fn fragment_counts_for_sizes_of_every_magnitude() {
    for len in lengths() {
        for size in lengths() {
            if size > 0 {
                let expected = (len as f32 / size as f32).ceil() as usize;
                assert_eq!(fragments(len, size), expected, "len {} size {}", len, size);
            }
        }
    }
}

#[test]
fn large_images_lose_fragments_to_rounding() {
    // 2^24 + 1 has no single-precision representation.
    assert_eq!(fragments(16_777_217, 1), 16_777_216);
    assert_eq!(fragments(16_777_219, 1), 16_777_220);
}

#[test]
fn redundancy_counts() {
    assert_eq!(redundancy(4, 30), 2);
    assert_eq!(redundancy(10, 100), 10);
    assert_eq!(redundancy(10, 0), 0);
    assert_eq!(redundancy(10, -30), 0);
    assert_eq!(redundancy(0, 30), 0);
    assert_eq!(redundancy(usize::MAX, i16::MAX), usize::MAX);
}

#[test]
fn redundancy_counts_are_single_precision_shares() {
    for count in lengths() {
        for percentage in [i16::MIN, -1, 0, 1, 3, 7, 10, 30, 33, 50, 99, 100, 101, 250, i16::MAX] {
            let expected = (count as f32 * percentage as f32 / 100.0).ceil() as usize;
            assert_eq!(redundancy(count, percentage), expected, "{} {}", count, percentage);
        }
    }
}

#[test]
fn paddings() {
    assert_eq!(padding(0, 30), 0);
    assert_eq!(padding(1, 30), 29);
    assert_eq!(padding(30, 30), 0);
    assert_eq!(padding(100, 30), 20);
    for len in 0..200usize {
        for size in 1..50usize {
            assert_eq!(padding(len, size), (size - (len % size)) % size);
            assert_eq!((len + padding(len, size)) % size, 0);
            assert_eq!(fragments(len, size) * size, len + padding(len, size));
        }
    }
}

#[test]
fn padded_images_end_in_zeros() {
    assert_eq!(pad(&[1, 2, 3, 4, 5], 4), vec![1, 2, 3, 4, 5, 0, 0, 0]);
    assert_eq!(pad(&[1, 2, 3, 4], 4), vec![1, 2, 3, 4]);
    assert_eq!(pad(&[], 4), Vec::<u8>::new());
}

#[test]
fn negative_fragment_sizes_keep_their_bits() {
    assert_eq!(fragment_size_in_bytes(30), 30);
    assert_eq!(fragment_size_in_bytes(0), 0);
    assert_eq!(fragment_size_in_bytes(-1), usize::MAX);
    for size in [i16::MIN, -129, -1, 0, 1, 300, i16::MAX] {
        assert_eq!(fragment_size_in_bytes(size), size as usize);
    }
}

#[test]
fn integers_are_rounded_to_single_precision() {
    for n in lengths() {
        assert_eq!(round_to_single(n as u128), n as f32 as u128, "{}", n);
    }
    assert_eq!(round_to_single(16_777_215), 16_777_215);
    assert_eq!(round_to_single(16_777_217), 16_777_216);
    assert_eq!(round_to_single(16_777_219), 16_777_220);
}

#[test]
fn quotients_are_rounded_before_they_are_rounded_up() {
    assert_eq!(quotient_ceiling(100, 30), 4);
    assert_eq!(quotient_ceiling(90, 30), 3);
    assert_eq!(quotient_ceiling(0, 30), 0);
    // 8388609.33 has no single-precision representation, and 8388609 is the nearest one.
    assert_eq!(quotient_ceiling(25_165_828, 3), 8_388_609);
    assert_eq!((25_165_828f32 / 3f32).ceil(), 8_388_609f32);
}

#[test]
fn low_bits_are_kept() {
    for x in [i16::MIN, -257, -256, -1, 0, 1, 255, 256, 300, i16::MAX] {
        assert_eq!(low_byte(x), x as u8);
    }
    assert_eq!(low_byte(-1), 255);
    for x in lengths() {
        assert_eq!(low_byte_of_size(x), x as u8);
        assert_eq!(low_u16_of_size(x), x as u16);
    }
    assert_eq!(low_byte_of_size(300), 44);
    assert_eq!(low_u16_of_size(65_537), 1);
    for x in [i64::MIN, -4_294_967_297, -1, 0, 1, 868_100_000, 4_294_967_296, i64::MAX] {
        assert_eq!(low_u32(x), x as u32);
    }
    assert_eq!(low_u32(-1), u32::MAX);
}
