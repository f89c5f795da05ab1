//! Packing the row-major right-hand operand of a tile product into the
//! grouped layout the AMX dot-product instructions consume.

use vstd::prelude::*;

verus! {

/// Entry (`g`, `o`, `l`) of a packed panel with `columns` output columns and
/// groups of `group` depth values: group row `g`, output column `o`, lane
/// `l`.
pub open spec fn packed_entry<T>(packed: Seq<T>, columns: int, group: int, g: int, o: int, l: int) -> T {
    packed[g * (columns * group) + o * group + l]
}

/// Where entry (`g`, `o`, `l`) comes from: depth row
/// `depth_offset + g * group + l`, column `column + o` of the source.
pub open spec fn rhs_source_index(stride: int, column: int, depth_offset: int, group: int, g: int, o: int, l: int) -> int {
    (depth_offset + g * group + l) * stride + column + o
}

proof fn lemma_packed_position(columns: int, group: int, g: int, o: int, l: int, groups: int)
    by (nonlinear_arith)
    requires
        0 <= g < groups,
        0 <= o < columns,
        0 <= l < group,
    ensures
        0 <= g * (columns * group) + o * group + l < groups * (columns * group),
        g * (columns * group) + o * group + l < (g + 1) * (columns * group),
        g * (columns * group) + o * group + l < g * (columns * group) + (o + 1) * group,
        g * (columns * group) <= g * (columns * group) + o * group,
        0 <= o * group,
        0 <= g * (columns * group),
{
}

proof fn lemma_position_order(columns: int, group: int, g2: int, o2: int, l2: int, g: int, o: int, l: int)
    by (nonlinear_arith)
    requires
        0 <= o2 < columns,
        0 <= l2 < group,
        0 <= o < columns,
        0 <= l < group,
        0 <= g2 <= g,
        g2 < g || o2 < o || (o2 == o && l2 < l),
        g2 == g || g2 < g,
        g2 < g || (o2 <= o),
    ensures
        g2 * (columns * group) + o2 * group + l2 < g * (columns * group) + o * group + l,
{
    if g2 < g {
        assert(g2 * (columns * group) + o2 * group + l2 < (g2 + 1) * (columns * group));
        assert((g2 + 1) * (columns * group) <= g * (columns * group));
    } else if o2 < o {
        assert(o2 * group + l2 < (o2 + 1) * group);
        assert((o2 + 1) * group <= o * group);
    }
}

proof fn lemma_source_position(stride: int, column: int, row: int, o: int, columns: int, last_row: int, len: int)
    by (nonlinear_arith)
    requires
        0 <= row <= last_row,
        0 <= o < columns,
        column >= 0,
        column + columns <= stride,
        last_row * stride + column + columns <= len,
    ensures
        0 <= row * stride,
        0 <= row * stride + column + o < len,
        row <= len,
{
    assert(row * stride <= last_row * stride);
    assert(row <= row * stride);
}

proof fn lemma_depth_row(depth_offset: int, g: int, group: int, l: int, groups: int, panel_depth: int)
    by (nonlinear_arith)
    requires
        0 <= g < groups,
        0 <= l < group,
        groups * group == panel_depth,
        depth_offset >= 0,
    ensures
        depth_offset <= depth_offset + g * group + l < depth_offset + panel_depth,
        0 <= g * group,
{
    assert(g * group + l < (g + 1) * group);
    assert((g + 1) * group <= groups * group);
}

/// Packs one row-major right-hand panel into a dot-product tile: the panel's
/// `panel_depth` rows starting at `depth_offset` are grouped `GROUP` at a
/// time, and each packed row holds, for every output column starting at
/// `column`, that column's `GROUP` consecutive depth values.
pub fn pack_rhs_panel<T: Copy, const GROUP: usize>(
    source: &[T],
    source_stride: usize,
    column: usize,
    depth_offset: usize,
    panel_depth: usize,
    destination: &mut [T],
)
    requires
        GROUP > 0,
        panel_depth > 0,
        panel_depth % GROUP == 0,
        (old(destination)@.len() as int) % (panel_depth as int) == 0,
        column + (old(destination)@.len() as int) / (panel_depth as int) <= source_stride,
        (depth_offset + panel_depth - 1) * source_stride + column + (old(destination)@.len() as int) / (panel_depth as int)
            <= source@.len(),
    ensures
        final(destination)@.len() == old(destination)@.len(),
        forall|g: int, o: int, l: int|
            0 <= g < (panel_depth as int) / (GROUP as int) && 0 <= o < (old(destination)@.len() as int) / (panel_depth as int) && 0 <= l < GROUP
                ==> #[trigger] packed_entry(final(destination)@, (old(destination)@.len() as int) / (panel_depth as int), GROUP as int, g, o, l)
                == source@[rhs_source_index(source_stride as int, column as int, depth_offset as int, GROUP as int, g, o, l)],
{
    let output_columns = destination.len() / panel_depth;
    let groups = panel_depth / GROUP;
    let ghost len: int = destination@.len() as int;
    let ghost source_len: int = source@.len() as int;
    proof {
        assert(source_len <= usize::MAX) by {
            let n = source.len();
        }
    }
    proof {
        assert(groups * GROUP == panel_depth) by (nonlinear_arith)
            requires (panel_depth as int) % (GROUP as int) == 0, groups == (panel_depth as int) / (GROUP as int), GROUP > 0;
        assert(output_columns * panel_depth == len) by (nonlinear_arith)
            requires len % (panel_depth as int) == 0, output_columns == len / (panel_depth as int), panel_depth > 0, len >= 0;
        assert(groups * (output_columns * GROUP) == len) by (nonlinear_arith)
            requires groups * GROUP == panel_depth, output_columns * panel_depth == len;
        assert(output_columns * GROUP <= len) by (nonlinear_arith)
            requires groups * (output_columns * GROUP) == len, groups * GROUP == panel_depth, panel_depth > 0;
    }
    let row_len = output_columns * GROUP;
    let mut group: usize = 0;
    while group < groups
        invariant
            GROUP > 0,
            group <= groups,
            groups * GROUP == panel_depth,
            groups * (output_columns * GROUP) == len,
            row_len == output_columns * GROUP,
            destination@.len() == len,
            len <= usize::MAX,
            source@.len() == source_len,
            source_len <= usize::MAX,
            column + output_columns <= source_stride,
            (depth_offset + panel_depth - 1) * source_stride + column + output_columns <= source@.len(),
            forall|g: int, o: int, l: int| 0 <= g < group && 0 <= o < output_columns && 0 <= l < GROUP
                ==> #[trigger] packed_entry(destination@, output_columns as int, GROUP as int, g, o, l)
                == source@[rhs_source_index(source_stride as int, column as int, depth_offset as int, GROUP as int, g, o, l)],
        decreases groups - group,
    {
        let mut output_column: usize = 0;
        while output_column < output_columns
            invariant
                GROUP > 0,
                group < groups,
                output_column <= output_columns,
                groups * GROUP == panel_depth,
                groups * (output_columns * GROUP) == len,
                row_len == output_columns * GROUP,
                destination@.len() == len,
                len <= usize::MAX,
                source@.len() == source_len,
                source_len <= usize::MAX,
            source@.len() == source_len,
            source_len <= usize::MAX,
            len <= usize::MAX,
            source@.len() == source_len,
            source_len <= usize::MAX,
                column + output_columns <= source_stride,
                (depth_offset + panel_depth - 1) * source_stride + column + output_columns <= source@.len(),
                forall|g: int, o: int, l: int|
                    0 <= o < output_columns && 0 <= l < GROUP && (0 <= g < group || (g == group && 0 <= o < output_column))
                    ==> #[trigger] packed_entry(destination@, output_columns as int, GROUP as int, g, o, l)
                    == source@[rhs_source_index(source_stride as int, column as int, depth_offset as int, GROUP as int, g, o, l)],
            decreases output_columns - output_column,
        {
            let mut lane: usize = 0;
            while lane < GROUP
                invariant
                    GROUP > 0,
                    group < groups,
                    output_column < output_columns,
                    lane <= GROUP,
                    groups * GROUP == panel_depth,
                    groups * (output_columns * GROUP) == len,
                    row_len == output_columns * GROUP,
                    destination@.len() == len,
                    len <= usize::MAX,
                    source@.len() == source_len,
                    source_len <= usize::MAX,
                source@.len() == source_len,
                source_len <= usize::MAX,
            source@.len() == source_len,
            source_len <= usize::MAX,
                len <= usize::MAX,
                source@.len() == source_len,
                source_len <= usize::MAX,
            source@.len() == source_len,
            source_len <= usize::MAX,
            len <= usize::MAX,
            source@.len() == source_len,
            source_len <= usize::MAX,
                    column + output_columns <= source_stride,
                    (depth_offset + panel_depth - 1) * source_stride + column + output_columns <= source@.len(),
                    forall|g: int, o: int, l: int|
                        0 <= o < output_columns && 0 <= l < GROUP && (0 <= g < group || (g == group && 0 <= o < output_column)
                            || (g == group && o == output_column && l < lane))
                        ==> #[trigger] packed_entry(destination@, output_columns as int, GROUP as int, g, o, l)
                        == source@[rhs_source_index(source_stride as int, column as int, depth_offset as int, GROUP as int, g, o, l)],
                decreases GROUP - lane,
            {
                proof {
                    lemma_packed_position(output_columns as int, GROUP as int, group as int, output_column as int, lane as int, groups as int);
                    lemma_depth_row(depth_offset as int, group as int, GROUP as int, lane as int, groups as int, panel_depth as int);
                    lemma_source_position(source_stride as int, column as int, (depth_offset + group * GROUP + lane) as int,
                        output_column as int, output_columns as int, (depth_offset + panel_depth - 1) as int, source_len);
                }
                let position = group * row_len + output_column * GROUP + lane;
                let source_index = (depth_offset + group * GROUP + lane) * source_stride + column + output_column;
                let ghost before = destination@;
                destination[position] = source[source_index];
                proof {
                    assert forall|g: int, o: int, l: int|
                        0 <= o < output_columns && 0 <= l < GROUP && (0 <= g < group || (g == group && 0 <= o < output_column)
                            || (g == group && o == output_column && l < lane + 1))
                        implies #[trigger] packed_entry(destination@, output_columns as int, GROUP as int, g, o, l)
                        == source@[rhs_source_index(source_stride as int, column as int, depth_offset as int, GROUP as int, g, o, l)] by {
                        if !(g == group && o == output_column && l == lane) {
                            lemma_position_order(output_columns as int, GROUP as int, g, o, l, group as int, output_column as int, lane as int);
                            assert(packed_entry(before, output_columns as int, GROUP as int, g, o, l)
                                == source@[rhs_source_index(source_stride as int, column as int, depth_offset as int, GROUP as int, g, o, l)]);
                        }
                    }
                }
                lane += 1;
            }
            output_column += 1;
        }
        group += 1;
    }
}

} // verus!
