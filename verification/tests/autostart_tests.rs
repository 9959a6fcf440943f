use dialog_cursor_mover::autostart::mix;

/// The seed cannot be read back from the file name.
#[test]
fn the_seed_cannot_be_read_back_from_the_file_name() {
    for seed in [0x0000_00f3_ed4f_fa10_18cd_6257_84ff_3d3c_u128, 0, 1, u128::MAX] {
        let out = mix(seed);
        assert_ne!(out >> 64, seed >> 64, "the upper 64 bits are left as they were");
        assert_ne!(
            out & u128::from(u64::MAX),
            seed & u128::from(u64::MAX),
            "the lower 64 bits are left as they were"
        );

        // flipping one bit changes a wide part of the output
        for bit in 0..128 {
            let changed = (out ^ mix(seed ^ (1u128 << bit))).count_ones();
            assert!(
                (30..=98).contains(&changed),
                "seed={seed:032x}: flipping bit {bit} changed {changed} bits"
            );
        }
    }
}
