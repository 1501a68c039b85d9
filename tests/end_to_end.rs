use qr_region_scan::codes::QrCodeType;
use qr_region_scan::filters::{render_strategy, Variant};
use qr_region_scan::frame::CapturedFrame;
use qr_region_scan::pipeline::DecodeRun;

const SIZE: usize = 21;

fn gf_mul(x: u8, y: u8) -> u8 {
    let mut z: u16 = 0;
    for i in (0..8).rev() {
        z = (z << 1) ^ ((z >> 7) * 0x11d);
        z ^= (((y >> i) & 1) as u16) * (x as u16);
    }
    z as u8
}

fn rs_divisor(degree: usize) -> Vec<u8> {
    let mut result = vec![0u8; degree];
    result[degree - 1] = 1;
    let mut root: u8 = 1;
    for _ in 0..degree {
        for j in 0..degree {
            result[j] = gf_mul(result[j], root);
            if j + 1 < degree {
                result[j] ^= result[j + 1];
            }
        }
        root = gf_mul(root, 0x02);
    }
    result
}

fn rs_remainder(data: &[u8], divisor: &[u8]) -> Vec<u8> {
    let mut result = vec![0u8; divisor.len()];
    for &b in data {
        let factor = b ^ result.remove(0);
        result.push(0);
        for (x, &y) in result.iter_mut().zip(divisor.iter()) {
            *x ^= gf_mul(y, factor);
        }
    }
    result
}

/// Version 1, error correction level L, byte mode, mask 0.
fn qr_modules(text: &str) -> Vec<Vec<bool>> {
    let mut bits: Vec<bool> = Vec::new();
    let mut push = |v: u32, n: u32, bits: &mut Vec<bool>| {
        for i in (0..n).rev() {
            bits.push((v >> i) & 1 == 1);
        }
    };
    push(0b0100, 4, &mut bits);
    push(text.len() as u32, 8, &mut bits);
    for b in text.bytes() {
        push(b as u32, 8, &mut bits);
    }
    push(0, 4, &mut bits);
    while bits.len() % 8 != 0 {
        bits.push(false);
    }
    let mut data: Vec<u8> = bits.chunks(8).map(|c| c.iter().fold(0u8, |a, &b| (a << 1) | b as u8)).collect();
    let mut pad = 0xec;
    while data.len() < 19 {
        data.push(pad);
        pad ^= 0xec ^ 0x11;
    }
    let ec = rs_remainder(&data, &rs_divisor(7));
    data.extend(ec);

    let mut m = vec![vec![false; SIZE]; SIZE];
    let mut f = vec![vec![false; SIZE]; SIZE];
    let mut set = |x: usize, y: usize, dark: bool, m: &mut Vec<Vec<bool>>, f: &mut Vec<Vec<bool>>| {
        m[y][x] = dark;
        f[y][x] = true;
    };
    for i in 0..SIZE {
        set(6, i, i % 2 == 0, &mut m, &mut f);
        set(i, 6, i % 2 == 0, &mut m, &mut f);
    }
    for &(cx, cy) in &[(3i32, 3i32), (SIZE as i32 - 4, 3), (3, SIZE as i32 - 4)] {
        for dy in -4i32..=4 {
            for dx in -4i32..=4 {
                let (x, y) = (cx + dx, cy + dy);
                if x >= 0 && y >= 0 && (x as usize) < SIZE && (y as usize) < SIZE {
                    let dist = dx.abs().max(dy.abs());
                    set(x as usize, y as usize, dist != 2 && dist != 4, &mut m, &mut f);
                }
            }
        }
    }
    let format_data: u32 = (1 << 3) | 0;
    let mut rem = format_data;
    for _ in 0..10 {
        rem = (rem << 1) ^ ((rem >> 9) * 0x537);
    }
    let fbits = ((format_data << 10) | rem) ^ 0x5412;
    let bit = |i: u32| (fbits >> i) & 1 == 1;
    for i in 0..6 {
        set(8, i, bit(i as u32), &mut m, &mut f);
    }
    set(8, 7, bit(6), &mut m, &mut f);
    set(8, 8, bit(7), &mut m, &mut f);
    set(7, 8, bit(8), &mut m, &mut f);
    for i in 9..15 {
        set(14 - i, 8, bit(i as u32), &mut m, &mut f);
    }
    for i in 0..8 {
        set(SIZE - 1 - i, 8, bit(i as u32), &mut m, &mut f);
    }
    for i in 8..15 {
        set(8, SIZE - 15 + i, bit(i as u32), &mut m, &mut f);
    }
    set(8, SIZE - 8, true, &mut m, &mut f);

    let mut i = 0;
    let mut right = SIZE as i32 - 1;
    while right >= 1 {
        if right == 6 {
            right = 5;
        }
        for vert in 0..SIZE {
            for j in 0..2 {
                let x = (right - j) as usize;
                let upward = ((right + 1) & 2) == 0;
                let y = if upward { SIZE - 1 - vert } else { vert };
                if !f[y][x] && i < data.len() * 8 {
                    m[y][x] = (data[i >> 3] >> (7 - (i & 7))) & 1 == 1;
                    i += 1;
                }
            }
        }
        right -= 2;
    }
    for y in 0..SIZE {
        for x in 0..SIZE {
            if !f[y][x] && (x + y) % 2 == 0 {
                m[y][x] = !m[y][x];
            }
        }
    }
    m
}

/// A 200 by 200 RGBA image with the code drawn at 8 pixels per module.
fn qr_frame(text: &str) -> CapturedFrame {
    let modules = qr_modules(text);
    let (side, scale, margin) = (200usize, 8usize, 16usize);
    let mut pixels = Vec::with_capacity(side * side * 4);
    for y in 0..side {
        for x in 0..side {
            let dark = x >= margin
                && y >= margin
                && (x - margin) / scale < SIZE
                && (y - margin) / scale < SIZE
                && modules[(y - margin) / scale][(x - margin) / scale];
            let v = if dark { 0 } else { 255 };
            pixels.extend_from_slice(&[v, v, v, 255]);
        }
    }
    CapturedFrame::from_raw(pixels, side as u32, side as u32).unwrap()
}

#[test]
fn synthetic_code_decodes_on_first_strategy() {
    let frame = qr_frame("hello");
    let mut run = DecodeRun::new();
    let mut tried = 0;
    while let Some(s) = run.next_strategy() {
        tried += 1;
        match render_strategy(&frame, s) {
            Variant::Ready(v) => run.scan_frame(&v),
            Variant::NeedsFilter(_) | Variant::Empty => run.skip(),
        }
    }
    assert_eq!(tried, 1);
    let results = run.into_results();
    assert_eq!(results.len(), 1);
    assert_eq!(results[0].content, "hello");
    assert_eq!(results[0].qr_type, QrCodeType::Text);
}

#[test]
fn two_renderings_of_one_code_give_one_result() {
    let left = qr_frame("https://x.io");
    let mut pixels = Vec::new();
    for y in 0..200usize {
        let row = &left.pixels[y * 800..(y + 1) * 800];
        pixels.extend_from_slice(row);
        pixels.extend_from_slice(row);
    }
    let doubled = CapturedFrame::from_raw(pixels, 400, 200).unwrap();
    let mut run = DecodeRun::new();
    while let Some(s) = run.next_strategy() {
        match render_strategy(&doubled, s) {
            Variant::Ready(v) => run.scan_frame(&v),
            Variant::NeedsFilter(_) | Variant::Empty => run.skip(),
        }
    }
    let results = run.into_results();
    assert_eq!(results.len(), 1);
    assert_eq!(results[0].content, "https://x.io");
    assert_eq!(results[0].qr_type, QrCodeType::Url);
}
