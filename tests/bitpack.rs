use um::bitpack::{fitss, fitsu, gets, getu, news, newu};

#[test]
fn fitsu_test() {
    let n: u64 = 1000;
    let width: u64 = 4;
    assert!(!fitsu(n, width));
    let n: u64 = 3;
    let width: u64 = 4;
    assert!(fitsu(n, width));
}

#[test]
fn newu_getu_test() {
    let n: u64 = 0;
    let packed = newu(n, 5, 0, 8).unwrap();
    let unpacked = getu(packed, 5, 0);
    assert!(unpacked == 8);
}

#[test]
fn fitss_test() {
    let n: i64 = -1000;
    let width: u64 = 4;
    assert!(!fitss(n, width));
    let n: i64 = -3;
    let width: u64 = 4;
    assert!(fitss(n, width));
}

#[test]
fn news_gets_test() {
    let n: u64 = 0;
    let packed = news(n, 8, 1, -1).unwrap();
    let unpacked = gets(packed, 8, 1);
    assert!(unpacked == -1);
}

#[test]
fn fitsu_bounds() {
    assert!(fitsu(15, 4));
    assert!(!fitsu(16, 4));
    assert!(fitsu(0, 0));
    assert!(!fitsu(1, 0));
    assert!(fitsu(u64::MAX, 64));
    assert!(!fitsu(u64::MAX, 63));
}

#[test]
fn fitss_bounds() {
    assert!(fitss(7, 4));
    assert!(!fitss(8, 4));
    assert!(fitss(-8, 4));
    assert!(!fitss(-9, 4));
    assert!(fitss(0, 0));
    assert!(!fitss(-1, 0));
    assert!(fitss(i64::MIN, 64));
    assert!(fitss(i64::MAX, 64));
    assert!(!fitss(i64::MIN, 63));
}

#[test]
fn getu_reads_fields() {
    assert_eq!(getu(0xABCD, 4, 4), 0xC);
    assert_eq!(getu(0xABCD, 8, 8), 0xAB);
    assert_eq!(getu(0xF000_0000, 4, 28), 0xF);
    assert_eq!(getu(u64::MAX, 64, 0), u64::MAX);
    assert_eq!(getu(u64::MAX, 0, 64), 0);
    assert_eq!(getu(u64::MAX, 0, 5), 0);
}

#[test]
fn gets_reads_signed_fields() {
    assert_eq!(gets(0b1110, 3, 1), -1);
    assert_eq!(gets(0b0110, 3, 1), 3);
    assert_eq!(gets(0b1000, 3, 1), -4);
    assert_eq!(gets(u64::MAX, 64, 0), -1);
    assert_eq!(gets(0x8000_0000_0000_0000, 64, 0), i64::MIN);
    assert_eq!(gets(u64::MAX, 0, 3), 0);
}

#[test]
fn newu_keeps_other_bits() {
    assert_eq!(newu(0xFFFF, 4, 4, 0), Some(0xFF0F));
    assert_eq!(newu(0, 4, 28, 13), Some(0xD000_0000));
    assert_eq!(newu(0x1234, 8, 0, 0xAB), Some(0x12AB));
}

#[test]
fn newu_rejects_values_that_do_not_fit() {
    assert_eq!(newu(0, 4, 0, 16), None);
    assert_eq!(newu(0, 0, 0, 1), None);
    assert_eq!(newu(7, 0, 3, 0), Some(7));
}

#[test]
fn news_writes_twos_complement() {
    assert_eq!(news(0, 4, 0, -1), Some(0xF));
    assert_eq!(news(0, 4, 4, -8), Some(0x80));
    assert_eq!(news(0xFFFF, 4, 4, 3), Some(0xFF3F));
    assert_eq!(news(0, 4, 0, 8), None);
    assert_eq!(news(0, 4, 0, -9), None);
}

#[test]
fn round_trip_on_many_fields() {
    let words: [u64; 3] = [0, u64::MAX, 0x0123_4567_89AB_CDEF];
    for &word in words.iter() {
        for width in 0..20u64 {
            for lsb in 0..(64 - width) {
                let top: u64 = if width == 0 { 0 } else { (1u64 << width) - 1 };
                for value in [0, top / 3, top] {
                    let packed = newu(word, width, lsb, value).unwrap();
                    assert_eq!(getu(packed, width, lsb), value);
                }
                if width > 0 {
                    let min: i64 = -(1i64 << (width - 1));
                    let max: i64 = (1i64 << (width - 1)) - 1;
                    for value in [min, -1, 0, max] {
                        if value < min || value > max {
                            continue;
                        }
                        let packed = news(word, width, lsb, value).unwrap();
                        assert_eq!(gets(packed, width, lsb), value);
                    }
                }
            }
        }
    }
}
