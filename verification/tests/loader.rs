use mips_sim::fault::Fault;
use mips_sim::state::{InstSpace, Vm};

fn words(text: &str) -> Result<Vec<u32>, Fault> {
    InstSpace::parse(text).map(|program| program.prog)
}

#[test]
fn one_word_per_line() {
    assert_eq!(words("20010005\n20020007\n00221820"), Ok(vec![0x2001_0005, 0x2002_0007, 0x0022_1820]));
}

#[test]
fn a_single_line_without_line_feed() {
    assert_eq!(words("8C010000"), Ok(vec![0x8C01_0000]));
}

#[test]
fn both_cases_of_hexadecimal_letters() {
    assert_eq!(words("abcdef\nABCDEF\naBcDeF09"), Ok(vec![0xABCDEF, 0xABCDEF, 0xABCD_EF09]));
}

#[test]
fn short_words_and_leading_zeros() {
    assert_eq!(words("0\n7\n0000000000000000001f"), Ok(vec![0, 7, 0x1F]));
}

#[test]
fn leading_plus_sign_is_accepted_once() {
    assert_eq!(words("+1F\n+0"), Ok(vec![0x1F, 0]));
    assert_eq!(words("++1F"), Err(Fault::MalformedWord { line: 0 }));
    assert_eq!(words("1+F"), Err(Fault::MalformedWord { line: 0 }));
    assert_eq!(words("+"), Err(Fault::MalformedWord { line: 0 }));
}

#[test]
fn largest_word_fits_and_the_next_number_does_not() {
    assert_eq!(words("FFFFFFFF"), Ok(vec![0xFFFF_FFFF]));
    assert_eq!(words("00FFFFFFFF"), Ok(vec![0xFFFF_FFFF]));
    assert_eq!(words("100000000"), Err(Fault::MalformedWord { line: 0 }));
    assert_eq!(words("FFFFFFFF0"), Err(Fault::MalformedWord { line: 0 }));
    assert_eq!(words("123456789"), Err(Fault::MalformedWord { line: 0 }));
}

#[test]
fn empty_text_is_one_empty_line() {
    assert_eq!(words(""), Err(Fault::MalformedWord { line: 0 }));
}

#[test]
fn text_ending_in_a_line_feed_has_an_empty_last_line() {
    assert_eq!(words("1\n2\n"), Err(Fault::MalformedWord { line: 2 }));
    assert_eq!(words("\n"), Err(Fault::MalformedWord { line: 0 }));
}

#[test]
fn empty_line_in_the_middle_is_malformed() {
    assert_eq!(words("1\n\n2"), Err(Fault::MalformedWord { line: 1 }));
}

#[test]
fn first_malformed_line_is_reported() {
    assert_eq!(words("1\n2\nxyz\n4\n-5"), Err(Fault::MalformedWord { line: 2 }));
    assert_eq!(words("g\nh"), Err(Fault::MalformedWord { line: 0 }));
    assert_eq!(words("1\n2\n3\n4 "), Err(Fault::MalformedWord { line: 3 }));
}

#[test]
fn signs_spaces_prefixes_and_carriage_returns_are_malformed() {
    assert_eq!(words("-1"), Err(Fault::MalformedWord { line: 0 }));
    assert_eq!(words(" 1"), Err(Fault::MalformedWord { line: 0 }));
    assert_eq!(words("1 "), Err(Fault::MalformedWord { line: 0 }));
    assert_eq!(words("0x1F"), Err(Fault::MalformedWord { line: 0 }));
    assert_eq!(words("1_000"), Err(Fault::MalformedWord { line: 0 }));
    assert_eq!(words("1\r\n2"), Err(Fault::MalformedWord { line: 0 }));
    assert_eq!(words("1\n2\u{e9}"), Err(Fault::MalformedWord { line: 1 }));
}

#[test]
fn characters_next_to_the_digit_ranges_are_malformed() {
    for c in ['/', ':', '@', 'G', '`', 'g'] {
        let text = format!("1{}", c);
        assert_eq!(words(&text), Err(Fault::MalformedWord { line: 0 }));
    }
}

#[test]
fn parsed_program_agrees_with_the_standard_parser() {
    let lines = ["0", "1", "a", "F", "10", "7fffffff", "80000000", "ffffffff", "DEADBEEF", "+12"];
    let text = lines.join("\n");
    let expected: Vec<u32> = lines.iter().map(|l| u32::from_str_radix(l, 16).unwrap()).collect();
    assert_eq!(words(&text), Ok(expected));
    for bad in ["", "+", "-1", "100000000", "g", "1 ", "0x1", "１"] {
        assert!(u32::from_str_radix(bad, 16).is_err());
        assert_eq!(words(bad), Err(Fault::MalformedWord { line: 0 }));
    }
}

#[test]
fn parsed_program_runs() {
    let program = InstSpace::parse("20010005\n20020007\n00221820").unwrap();
    let mut vm = Vm::new(program);
    assert_eq!(vm.run(100), Ok(false));
    assert_eq!(vm.regs[3], 12);
    assert_eq!(vm.pc, 12);
}
