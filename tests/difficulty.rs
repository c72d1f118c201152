use wgpu_playground::difficulty::{generate_check_difficulty_wgsl, wgsl_source};

fn function_with(cond: &str) -> String {
    format!(
        "\nfn check_difficulty(buf: ptr<function, array<u32, SHA256_BLOCK_SIZE>>) -> bool {{\n    return {};\n}}\n",
        cond
    )
}

#[test]
fn difficulty_zero_is_always_true() {
    assert_eq!(generate_check_difficulty_wgsl(0), function_with("true"));
}

#[test]
fn difficulty_eight_checks_first_byte() {
    assert_eq!(generate_check_difficulty_wgsl(8), function_with("buf[0] == 0u"));
}

#[test]
fn difficulty_twelve_checks_high_nibble() {
    assert_eq!(
        generate_check_difficulty_wgsl(12),
        function_with("buf[0] == 0u && (buf[1] >> 4u) == 0u")
    );
}

#[test]
fn difficulty_below_one_byte() {
    assert_eq!(generate_check_difficulty_wgsl(3), function_with("(buf[0] >> 5u) == 0u"));
}

#[test]
fn difficulty_full_digest_stays_in_bounds() {
    let text = generate_check_difficulty_wgsl(256);
    let conds: Vec<String> = (0..32).map(|i| format!("buf[{}] == 0u", i)).collect();
    assert_eq!(text, function_with(&conds.join(" && ")));
    assert!(!text.contains("buf[32]"));
}

#[test]
fn source_replaces_first_line() {
    let template = "// check_difficulty goes here\nfn main() {}\n";
    assert_eq!(wgsl_source(template, 8), function_with("buf[0] == 0u") + "fn main() {}\n");
}

#[test]
fn source_of_single_line_template() {
    assert_eq!(wgsl_source("placeholder", 0), function_with("true"));
}
