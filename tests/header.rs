use fastq_fix_i5::{rewrite_header_i5, HeaderError};

fn check_valid(input: &[u8], expected: &[u8]) {
    let mut header = input.to_vec();
    assert_eq!(rewrite_header_i5(&mut header), Ok(()));
    assert_eq!(
        String::from_utf8_lossy(&header),
        String::from_utf8_lossy(expected)
    );
    // applying it again recovers the original input
    assert_eq!(rewrite_header_i5(&mut header), Ok(()));
    assert_eq!(String::from_utf8_lossy(&header), String::from_utf8_lossy(input));
}

fn check_invalid(input: &[u8], msg_substr: &str) -> HeaderError {
    let mut header = input.to_vec();
    let err = rewrite_header_i5(&mut header).expect_err("expected rewrite_header_i5 to fail");
    assert!(err.message().contains(msg_substr), "got: {}", err.message());
    assert_eq!(header, input.to_vec());
    err
}

#[test]
fn rewrite_header_i5_valid_actacttgag() {
    check_valid(
        b"@VH00821:6:AACCCKLM5:1:1101:18231:1000 1:N:0:TCTTGAGGTT+ACTACTTGAG\n",
        b"@VH00821:6:AACCCKLM5:1:1101:18231:1000 1:N:0:TCTTGAGGTT+CTCAAGTAGT\n",
    );
}

#[test]
fn rewrite_header_i5_valid_a() {
    check_valid(b"@r1 1:N:0:AAAA+A\n", b"@r1 1:N:0:AAAA+T\n");
}

#[test]
fn rewrite_header_i5_valid_ac() {
    check_valid(b"@r1 1:N:0:AAAA+AC\n", b"@r1 1:N:0:AAAA+GT\n");
}

#[test]
fn rewrite_header_i5_valid_acg() {
    check_valid(b"@r1 1:N:0:AAAA+ACG\n", b"@r1 1:N:0:AAAA+CGT\n");
}

#[test]
fn rewrite_header_i5_valid_acgt() {
    check_valid(b"@r1 1:N:0:AAAA+ACGT\n", b"@r1 1:N:0:AAAA+ACGT\n");
}

#[test]
fn rewrite_header_i5_valid_acgt_lowercase() {
    check_valid(b"@r2 1:N:0:CCCC+acgt\n", b"@r2 1:N:0:CCCC+acgt\n");
}

#[test]
fn rewrite_header_i5_valid_nnnn() {
    check_valid(b"@r3 1:N:0:GGGG+NNNN\n", b"@r3 1:N:0:GGGG+NNNN\n");
}

#[test]
fn rewrite_header_i5_valid_actg_mixedcase() {
    check_valid(b"@r4 1:N:0:TTTT+AcTg\n", b"@r4 1:N:0:TTTT+cAgT\n");
}

#[test]
fn rewrite_header_i5_valid_extra_colons() {
    check_valid(
        b"@inst:run:flow:lane:tile:x:y 1:N:0:AAAA+TTTT\n",
        b"@inst:run:flow:lane:tile:x:y 1:N:0:AAAA+AAAA\n",
    );
}

#[test]
fn rewrite_header_i5_valid_empty_i5() {
    check_valid(b"@pyt1 1:N:0:AAAA+\n", b"@pyt1 1:N:0:AAAA+\n");
}

#[test]
fn rewrite_header_i5_valid_single_a() {
    check_valid(b"@pyt2 1:N:0:AAAA+A\n", b"@pyt2 1:N:0:AAAA+T\n");
}

#[test]
fn rewrite_header_i5_valid_single_n() {
    check_valid(b"@pyt3 1:N:0:AAAA+N\n", b"@pyt3 1:N:0:AAAA+N\n");
}

#[test]
fn rewrite_header_i5_valid_mixed_case_short() {
    check_valid(b"@pyt4 1:N:0:AAAA+AaCg\n", b"@pyt4 1:N:0:AAAA+cGtT\n");
}

#[test]
fn rewrite_header_i5_valid_acgtn() {
    check_valid(b"@pyt5 1:N:0:AAAA+AcgTN\n", b"@pyt5 1:N:0:AAAA+NAcgT\n");
}

#[test]
fn rewrite_header_i5_valid_all_as() {
    check_valid(b"@pyt6 1:N:0:AAAA+AAAA\n", b"@pyt6 1:N:0:AAAA+TTTT\n");
}

#[test]
fn rewrite_header_i5_valid_all_cs() {
    check_valid(b"@pyt7 1:N:0:AAAA+CCCC\n", b"@pyt7 1:N:0:AAAA+GGGG\n");
}

#[test]
fn rewrite_header_i5_valid_at_repeat() {
    check_valid(b"@pyt8 1:N:0:AAAA+ATATAT\n", b"@pyt8 1:N:0:AAAA+ATATAT\n");
}

#[test]
fn rewrite_header_i5_valid_cg_repeat() {
    check_valid(b"@pyt9 1:N:0:AAAA+CGCGCG\n", b"@pyt9 1:N:0:AAAA+CGCGCG\n");
}

#[test]
fn rewrite_header_i5_valid_ns_flanking() {
    check_valid(b"@pyt10 1:N:0:AAAA+NNACGTNN\n", b"@pyt10 1:N:0:AAAA+NNACGTNN\n");
}

#[test]
fn rewrite_header_i5_valid_general_atcacg() {
    check_valid(b"@pyt11 1:N:0:AAAA+ATCACG\n", b"@pyt11 1:N:0:AAAA+CGTGAT\n");
}

#[test]
fn rewrite_header_i5_valid_general_ttaggc() {
    check_valid(b"@pyt12 1:N:0:AAAA+TTAGGC\n", b"@pyt12 1:N:0:AAAA+GCCTAA\n");
}

#[test]
fn rewrite_header_i5_valid_r1_barcode() {
    check_valid(b"@r1 1:N:0:AAAA+ACTACTTGAG\n", b"@r1 1:N:0:AAAA+CTCAAGTAGT\n");
}

#[test]
fn rewrite_header_i5_valid_r2_lowercase() {
    check_valid(b"@r2 1:N:0:CCCC+atcacg\n", b"@r2 1:N:0:CCCC+cgtgat\n");
}

#[test]
fn rewrite_header_i5_valid_other_bytes_mirrored() {
    check_valid(b"@x 1:N:0:AA+A.xC\n", b"@x 1:N:0:AA+Gx.T\n");
}

#[test]
fn rewrite_header_i5_valid_plus_in_i5() {
    // only the first '+' after the last ':' delimits the i5 field
    check_valid(b"@x 1:N:0:AA+C+G\n", b"@x 1:N:0:AA+C+G\n");
    check_valid(b"@x 1:N:0:AA+A+C\n", b"@x 1:N:0:AA+G+T\n");
}

#[test]
fn rewrite_header_i5_valid_plus_before_last_colon() {
    check_valid(b"@x+y 1:N:0:AA+AC\n", b"@x+y 1:N:0:AA+GT\n");
}

#[test]
fn rewrite_header_i5_invalid_empty_header() {
    assert_eq!(check_invalid(b"@\n", "missing ':'"), HeaderError::MissingFieldDelimiter);
}

#[test]
fn rewrite_header_i5_invalid_no_colon() {
    assert_eq!(
        check_invalid(b"@r6 no_index_here\n", "missing ':'"),
        HeaderError::MissingFieldDelimiter
    );
}

#[test]
fn rewrite_header_i5_invalid_no_plus() {
    assert_eq!(
        check_invalid(b"@r5 1:N:0:AAAA\n", "missing '+'"),
        HeaderError::MissingSubfieldDelimiter
    );
}

#[test]
fn rewrite_header_i5_invalid_no_newline() {
    assert_eq!(
        check_invalid(b"@r7 1:N:0:CCCC+AGTC", "missing trailing newline"),
        HeaderError::MissingTerminator
    );
}

#[test]
fn rewrite_header_i5_invalid_no_marker() {
    assert_eq!(
        check_invalid(b"r8 1:N:0:CCCC+AGTC\n", "does not start with '@'"),
        HeaderError::MissingMarker
    );
}

#[test]
fn rewrite_header_i5_invalid_empty_line() {
    assert_eq!(check_invalid(b"", "does not start with '@'"), HeaderError::MissingMarker);
}

#[test]
fn rewrite_header_i5_invalid_plus_only_before_last_colon() {
    assert_eq!(
        check_invalid(b"@r9 1:N:0:AA+CC:GG\n", "missing '+'"),
        HeaderError::MissingSubfieldDelimiter
    );
}

#[test]
fn rewrite_header_i5_invalid_marker_checked_first() {
    // a line with no marker and no newline reports the marker first
    assert_eq!(check_invalid(b"x", "does not start with '@'"), HeaderError::MissingMarker);
}
