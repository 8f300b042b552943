//! Emitted target text: templates per hook category, map declaration
//! blocks, identifier sanitising, decimal rendering, and the tracepoint
//! walker's declarations and conditionals.

use solnix::ir::program::lower_program;
use solnix::emit::program::emit_program;
use solnix::parser::parse;
use solnix::strutil;

fn emit(src: &str) -> String {
    let prog = parse(src).expect("parse failed");
    let pir = lower_program(&prog).expect("lowering failed");
    emit_program(&pir).expect("emission failed")
}

#[test]
fn decimal_rendering_is_exact() {
    let mut s = String::new();
    strutil::append_u64(&mut s, 0);
    s.push_str(" ");
    strutil::append_u64(&mut s, 1024);
    s.push_str(" ");
    strutil::append_u64(&mut s, 18446744073709551615);
    assert_eq!(s, "0 1024 18446744073709551615");

    let mut t = String::new();
    strutil::append_i64(&mut t, -42);
    t.push_str(" ");
    strutil::append_i64(&mut t, i64::MIN);
    assert_eq!(t, "-42 -9223372036854775808");
}

#[test]
fn xdp_unit_emits_template_with_handler_name() {
    let text = emit("unit filter { section: \"xdp\"; license: \"GPL\"; return 0; }");
    assert!(text.contains("char LICENSE[] SEC(\"license\") = \"GPL\";"));
    assert!(text.contains("SEC(\"xdp\")\nint filter(struct xdp_md *ctx)"));
    assert!(text.contains("if (data + 26 + 4 > data_end) return XDP_PASS;"));
    assert!(text.contains("#define XDP_PASS 2"));
    assert!(!text.contains("TC_ACT_OK"));
}

#[test]
fn tc_unit_emits_action_codes_and_bounds_check() {
    let text = emit("unit shaper { section: \"tc\"; license: \"GPL\"; return 0; }");
    assert!(text.contains("#define TC_ACT_OK 0"));
    assert!(text.contains("SEC(\"classifier\")\nint shaper(struct __sk_buff *ctx)"));
    assert!(text.contains("if (data + 14 > data_end) return TC_ACT_OK;"));
}

#[test]
fn sk_msg_unit_emits_socket_codes() {
    let text = emit("unit verdict { section: \"sk_msg\"; license: \"GPL\"; return 0; }");
    assert!(text.contains("#define SK_PASS 1"));
    assert!(text.contains("SEC(\"sk_msg\")\nint verdict(struct sk_msg_md *msg)"));
}

#[test]
fn kprobe_and_fentry_units_emit_their_sections() {
    let text = emit(
        "unit kp { section: \"kprobe/do_sys_open\"; license: \"GPL\"; return 0; }",
    );
    assert!(text.contains("SEC(\"kprobe/do_sys_open\")\nint kp(struct pt_regs *ctx)"));
}

#[test]
fn map_block_carries_capacity_and_types() {
    let text = emit(
        "map counters { type: .hash; key: u32; value: u64; max: 1024; }\n\
         unit u { section: \"xdp\"; license: \"GPL\"; return 0; }",
    );
    assert!(text.contains("__uint(type, BPF_MAP_TYPE_HASH);"));
    assert!(text.contains("__uint(max_entries, 1024);"));
    assert!(text.contains("__type(key, __u32);"));
    assert!(text.contains("__type(value, __u64);"));
    assert!(text.contains("} counters SEC(\".maps\");"));
}

#[test]
fn ringbuf_map_omits_key_and_value_types() {
    let text = emit(
        "map events { type: .ringbuf; key: u32; value: u64; max: 4096; }\n\
         unit u { section: \"xdp\"; license: \"GPL\"; return 0; }",
    );
    assert!(text.contains("__uint(type, BPF_MAP_TYPE_RINGBUF);"));
    let block = text.split("} events SEC").next().unwrap();
    let block = &block[block.find("BPF_MAP_TYPE_RINGBUF").unwrap()..];
    assert!(!block.contains("__type(key"));
}

#[test]
fn tracepoint_unit_walks_ir_into_statements() {
    let text = emit(
        "map counters { type: .hash; key: u32; value: u64; max: 64; }\n\
         unit tally { section: \"tracepoint/syscalls/sys_enter_open\"; license: \"GPL\";\n\
           reg k = 7;\n\
           heap slot = counters.lookup(k);\n\
           if guard(slot) { *slot += 1; }\n\
           return 0;\n\
         }",
    );
    assert!(text.contains("SEC(\"tracepoint/syscalls/sys_enter_open\")\nint tally(void *ctx)"));
    // The lookup result is declared as a pointer, scalars as values.
    assert!(text.contains("__u64 *v"));
    assert!(text.contains("__u64 v0 = 0;"));
    assert!(text.contains("bpf_map_lookup_elem(&counters, &"));
    // The null check opens a conditional that the store closes.
    let open = text.find("    if (v").expect("conditional missing");
    let store = text.find("        *v").expect("store missing");
    let close = text.find("    }\n").expect("closing brace missing");
    assert!(open < store && store < close);
    assert!(text.contains("return 0;\n}"));
}

#[test]
fn unsupported_section_fails_emission_as_a_whole() {
    let prog = parse("unit u { section: \"sockops\"; license: \"GPL\"; return 0; }").unwrap();
    let pir = lower_program(&prog).unwrap();
    let e = emit_program(&pir).unwrap_err();
    assert_eq!(e, "Unsupported section: sockops");
}

#[test]
fn units_are_emitted_in_declaration_order() {
    let text = emit(
        "unit first { section: \"xdp\"; license: \"GPL\"; return 0; }\n\
         unit second { section: \"tc\"; license: \"GPL\"; return 0; }",
    );
    let a = text.find("int first(").unwrap();
    let b = text.find("int second(").unwrap();
    assert!(a < b);
}

#[test]
fn cgroup_units_emit_their_sections() {
    let text = emit(
        "unit guard_skb { section: \"cgroup/skb/ingress\"; license: \"GPL\"; return 0; }\n\
         unit guard_addr { section: \"cgroup/sock_addr\"; license: \"GPL\"; return 0; }",
    );
    assert!(text.contains("SEC(\"cgroup/skb/ingress\")\nint guard_skb(struct __sk_buff *skb)"));
    assert!(text.contains("if (data >= data_end) return SK_DROP;"));
    assert!(text.contains("SEC(\"cgroup/sock_addr\")\nint guard_addr(struct bpf_sock_addr *ctx)"));
}

#[test]
fn stream_and_direction_variants_pick_their_sections() {
    let text = emit(
        "unit par { section: \"sk_skb/stream_parser\"; license: \"GPL\"; return 0; }\n\
         unit egr { section: \"tcx/egress\"; license: \"GPL\"; return 0; }\n\
         unit ingr { section: \"tc/ingress\"; license: \"GPL\"; return 0; }",
    );
    assert!(text.contains("SEC(\"sk_skb/stream_parser\")\nint par("));
    assert!(text.contains("SEC(\"tcx/egress\")\nint egr("));
    assert!(text.contains("SEC(\"tcx/ingress\")\nint ingr("));
}

#[test]
fn probe_style_templates_emit_fixed_bodies() {
    let text = emit(
        "unit rt { section: \"raw_tracepoint/sys_enter\"; license: \"GPL\"; return 0; }\n\
         unit fe { section: \"fentry/vfs_read\"; license: \"GPL\"; return 0; }\n\
         unit sec_hook { section: \"lsm/file_open\"; license: \"GPL\"; return 0; }",
    );
    assert!(text.contains("SEC(\"raw_tracepoint/sys_enter\")\nint rt(struct bpf_raw_tracepoint_args *ctx)"));
    assert!(text.contains("SEC(\"fentry/vfs_read\")\nint fe(void *ctx)"));
    assert!(text.contains("SEC(\"lsm/file_open\")\nint sec_hook(void *ctx)"));
    assert!(text.contains("// return 0 to allow, -EPERM to deny"));
}

#[test]
fn unit_without_sections_is_unsupported_at_emission() {
    let prog = parse("unit bare { return 0; }").unwrap();
    let pir = lower_program(&prog).unwrap();
    let e = emit_program(&pir).unwrap_err();
    assert_eq!(e, "Unsupported section: unknown");
}
