use vstd::prelude::*;

verus! {

/// State of the left-to-right time-code scan: the minute segment seen so
/// far, the second segment seen so far, the digit run still being
/// accumulated, and whether any `:` or `.` delimiter has occurred.
pub struct ScanState {
    pub min: Seq<char>,
    pub sec: Seq<char>,
    pub temp: Seq<char>,
    pub delim: bool,
}

/// One step of the scan: `:` closes a minute candidate (the most recent one
/// wins), `.` closes the seconds segment, and any other character extends
/// the current run.
pub open spec fn scan_step(st: ScanState, c: char) -> ScanState {
    if c == ':' {
        ScanState { min: st.temp, sec: st.sec, temp: Seq::empty(), delim: true }
    } else if c == '.' {
        ScanState { min: st.min, sec: st.temp, temp: Seq::empty(), delim: true }
    } else {
        ScanState { min: st.min, sec: st.sec, temp: st.temp.push(c), delim: st.delim }
    }
}

/// The scan state after reading all of `s`, left to right.
pub open spec fn scan(s: Seq<char>) -> ScanState
    decreases s.len(),
{
    if s.len() == 0 {
        ScanState {
            min: Seq::empty(),
            sec: Seq::empty(),
            temp: Seq::empty(),
            delim: false,
        }
    } else {
        scan_step(scan(s.drop_last()), s.last())
    }
}

/// Pads a minute or second segment to width 2 with a leading zero; an
/// absent segment becomes `00`; longer segments are kept as they are.
pub open spec fn pad2(x: Seq<char>) -> Seq<char> {
    if x.len() == 0 {
        seq!['0', '0']
    } else if x.len() == 1 {
        seq!['0'] + x
    } else {
        x
    }
}

/// Truncates a fraction to its first 2 characters; shorter fractions are
/// kept as they are, without padding.
pub open spec fn frac2(x: Seq<char>) -> Seq<char> {
    if x.len() > 2 {
        x.subrange(0, 2)
    } else {
        x
    }
}

/// The canonical `MM:SS.CC` form of a free-form time-code string.
///
/// A digit run left over at the end of the scan becomes the fraction when
/// some `:` or `.` delimiter occurred, and the seconds segment when none
/// did (a bare digit run is a number of seconds). The fraction is truncated
/// to 2 characters, never rounded, and stays empty when none was captured.
pub open spec fn normalize_spec(s: Seq<char>) -> Seq<char> {
    let st = scan(s);
    let sec = if !st.delim && st.temp.len() > 0 {
        st.temp
    } else {
        st.sec
    };
    let frac = if st.delim {
        st.temp
    } else {
        Seq::<char>::empty()
    };
    pad2(st.min) + seq![':'] + pad2(sec) + seq!['.'] + frac2(frac)
}

} // verus!
