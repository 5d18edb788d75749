use nand_alu::gates::Signal::{High, Low};
use nand_alu::gates::{
    and, and_m_way, and_n, dmux, dmux_4_way, dmux_8_way, mux, mux_4_way_n, mux_8_way_n, mux_n,
    nand, not, not_n, or, or_m_way, or_n, xor,
};

#[test]
fn tnand() {
    assert_eq!(nand(Low, Low), High);
    assert_eq!(nand(Low, High), High);
    assert_eq!(nand(High, Low), High);
    assert_eq!(nand(High, High), Low);
}

#[test]
fn tnot() {
    assert_eq!(not(Low), High);
    assert_eq!(not(High), Low);
}

#[test]
fn tand() {
    assert_eq!(and(Low, Low), Low);
    assert_eq!(and(Low, High), Low);
    assert_eq!(and(High, Low), Low);
    assert_eq!(and(High, High), High);
}

#[test]
fn tor() {
    assert_eq!(or(Low, Low), Low);
    assert_eq!(or(Low, High), High);
    assert_eq!(or(High, Low), High);
    assert_eq!(or(High, High), High);
}

#[test]
fn txor() {
    assert_eq!(xor(Low, Low), Low);
    assert_eq!(xor(Low, High), High);
    assert_eq!(xor(High, Low), High);
    assert_eq!(xor(High, High), Low);
}

#[test]
fn tmux() {
    assert_eq!(mux(Low, Low, Low), Low);
    assert_eq!(mux(Low, High, Low), Low);
    assert_eq!(mux(High, Low, Low), High);
    assert_eq!(mux(High, High, Low), High);
    assert_eq!(mux(Low, Low, High), Low);
    assert_eq!(mux(Low, High, High), High);
    assert_eq!(mux(High, Low, High), Low);
    assert_eq!(mux(High, High, High), High);
}

#[test]
fn tdmux() {
    assert_eq!(dmux(Low, Low), (Low, Low));
    assert_eq!(dmux(Low, High), (Low, Low));
    assert_eq!(dmux(High, Low), (High, Low));
    assert_eq!(dmux(High, High), (Low, High));
}

#[test]
fn tnot_n() {
    assert_eq!(not_n(&vec![Low, High]), vec![High, Low]);
    assert_eq!(not_n(&vec![High, High]), vec![Low, Low]);
}

#[test]
fn tand_n() {
    assert_eq!(and_n(&vec![Low, High], &vec![Low, High]), vec![Low, High]);
    assert_eq!(and_n(&vec![High, High], &vec![Low, Low]), vec![Low, Low]);
}

#[test]
fn tor_n() {
    assert_eq!(or_n(&vec![Low, High], &vec![Low, High]), vec![Low, High]);
    assert_eq!(or_n(&vec![High, High], &vec![Low, Low]), vec![High, High]);
}

#[test]
fn tmux_n() {
    assert_eq!(mux_n(&vec![Low, High], &vec![High, High], Low), vec![Low, High]);
    assert_eq!(mux_n(&vec![Low, High], &vec![High, High], High), vec![High, High]);
}

#[test]
fn tor_m_way() {
    assert_eq!(or_m_way(&vec![Low, Low, Low]), Low);
    assert_eq!(or_m_way(&vec![Low, High, Low]), High);
}

#[test]
fn tmux_4_way_n() {
    assert_eq!(mux_4_way_n(&vec![Low], &vec![Low], &vec![High], &vec![Low], Low, Low), vec![Low]);
    assert_eq!(mux_4_way_n(&vec![Low], &vec![Low], &vec![High], &vec![Low], High, Low), vec![Low]);
    assert_eq!(mux_4_way_n(&vec![Low], &vec![Low], &vec![High], &vec![Low], Low, High), vec![High]);
    assert_eq!(mux_4_way_n(&vec![Low], &vec![Low], &vec![High], &vec![Low], High, High), vec![Low]);
}

#[test]
fn tmux_8_way_n() {
    let pick = |sel1, sel2, sel3| {
        mux_8_way_n(
            &vec![Low],
            &vec![Low],
            &vec![Low],
            &vec![Low],
            &vec![Low],
            &vec![Low],
            &vec![High],
            &vec![Low],
            sel1,
            sel2,
            sel3,
        )
    };
    assert_eq!(pick(Low, Low, Low), vec![Low]);
    assert_eq!(pick(Low, Low, Low), vec![Low]);
    assert_eq!(pick(Low, Low, Low), vec![Low]);
    assert_eq!(pick(Low, Low, Low), vec![Low]);
    assert_eq!(pick(Low, Low, Low), vec![Low]);
    assert_eq!(pick(Low, Low, Low), vec![Low]);
    assert_eq!(pick(Low, Low, Low), vec![Low]);
    assert_eq!(pick(Low, High, High), vec![High]);
}

#[test]
fn tdmux_4_way() {
    assert_eq!(dmux_4_way(Low, Low, Low), vec![Low, Low, Low, Low]);
    assert_eq!(dmux_4_way(High, Low, Low), vec![High, Low, Low, Low]);
    assert_eq!(dmux_4_way(Low, Low, High), vec![Low, Low, Low, Low]);
    assert_eq!(dmux_4_way(High, Low, High), vec![Low, High, Low, Low]);
    assert_eq!(dmux_4_way(Low, High, Low), vec![Low, Low, Low, Low]);
    assert_eq!(dmux_4_way(High, High, Low), vec![Low, Low, High, Low]);
    assert_eq!(dmux_4_way(Low, High, High), vec![Low, Low, Low, Low]);
    assert_eq!(dmux_4_way(High, High, High), vec![Low, Low, Low, High]);
}

#[test]
fn tdmux_8_way() {
    assert_eq!(dmux_8_way(Low, Low, Low, Low), vec![Low, Low, Low, Low, Low, Low, Low, Low]);
    assert_eq!(dmux_8_way(High, Low, Low, Low), vec![High, Low, Low, Low, Low, Low, Low, Low]);
    assert_eq!(dmux_8_way(High, Low, Low, High), vec![Low, High, Low, Low, Low, Low, Low, Low]);
    assert_eq!(dmux_8_way(Low, Low, Low, High), vec![Low, Low, Low, Low, Low, Low, Low, Low]);
    assert_eq!(dmux_8_way(High, High, High, High), vec![Low, Low, Low, Low, Low, Low, Low, High]);
    assert_eq!(dmux_8_way(High, High, High, Low), vec![Low, Low, Low, Low, Low, Low, High, Low]);
}

#[test]
fn tand_m_way() {
    assert_eq!(and_m_way(&vec![High, High, High]), High);
    assert_eq!(and_m_way(&vec![High, Low, High]), Low);
    assert_eq!(and_m_way(&vec![]), High);
}

#[test]
fn tor_m_way_edges() {
    assert_eq!(or_m_way(&vec![]), Low);
    assert_eq!(or_m_way(&vec![High, High, High, High]), High);
    assert_eq!(or_m_way(&vec![Low, Low, Low, High]), High);
    assert_eq!(or_m_way(&vec![High, Low, Low, Low]), High);
}

#[test]
fn tmux_8_way_n_every_selector() {
    let buses: Vec<Vec<_>> = (0..8)
        .map(|k| if k % 2 == 0 { vec![Low, High] } else { vec![High, Low] })
        .collect();
    let sels = [Low, High];
    for s3 in 0..2 {
        for s2 in 0..2 {
            for s1 in 0..2 {
                let picked = mux_8_way_n(
                    &buses[0], &buses[1], &buses[2], &buses[3], &buses[4], &buses[5], &buses[6],
                    &buses[7], sels[s1], sels[s2], sels[s3],
                );
                assert_eq!(picked, buses[4 * s3 + 2 * s2 + s1]);
            }
        }
    }
}

#[test]
fn tdmux_8_way_every_selector() {
    let sels = [Low, High];
    for s1 in 0..2 {
        for s2 in 0..2 {
            for s3 in 0..2 {
                let outs = dmux_8_way(High, sels[s1], sels[s2], sels[s3]);
                let selected = 4 * s1 + 2 * s2 + s3;
                for (j, out) in outs.iter().enumerate() {
                    assert_eq!(*out, if j == selected { High } else { Low });
                }
            }
        }
    }
}
