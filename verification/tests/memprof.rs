use hms_render::memprof::{add_buf, add_mesh, add_tex_bc, add_tex_uncompressed, categories, note, report, MemProf};

#[test]
fn counters_add_up_per_kind() {
    let mut p = MemProf::new();
    assert_eq!(report(&p), (0, 0, 0, 0, 0));
    add_tex_uncompressed(&mut p, 400);
    add_tex_bc(&mut p, 50);
    add_buf(&mut p, 7);
    add_buf(&mut p, 9);
    add_mesh(&mut p);
    assert_eq!(report(&p), (400, 50, 16, 2, 1));
}

#[test]
fn counters_wrap() {
    let mut p = MemProf::new();
    add_buf(&mut p, u64::MAX);
    add_buf(&mut p, 3);
    assert_eq!(report(&p).2, 2);
}

#[test]
fn labels_come_back_sorted_and_summed() {
    let mut p = MemProf::new();
    note(&mut p, "tex:dds-bc", 100);
    note(&mut p, "buf:mesh-vb/ib", 10);
    note(&mut p, "tex:dds-bc", 11);
    note(&mut p, "buf:mesh-inst", 1);
    note(&mut p, "tex", 5);
    assert_eq!(
        categories(&p),
        vec![
            ("buf:mesh-inst", 1, 1),
            ("buf:mesh-vb/ib", 1, 10),
            ("tex", 1, 5),
            ("tex:dds-bc", 2, 111),
        ]
    );
    assert_eq!(report(&p), (0, 0, 0, 0, 0));
}

#[test]
fn categories_list_the_history_of_notes() {
    let calls: [(&'static str, u64); 6] = [("tex:b", 5), ("buf", 7), ("tex:a", 1), ("tex:b", 6), ("buf", 0), ("tex:b", 9)];
    let mut p = MemProf::new();
    for (name, bytes) in calls {
        note(&mut p, name, bytes);
    }
    assert_eq!(categories(&p), vec![("buf", 2, 7), ("tex:a", 1, 1), ("tex:b", 3, 20)]);
}
