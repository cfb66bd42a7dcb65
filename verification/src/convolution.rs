//! The description of a convolution: its parameters, the sizes of the
//! tensors it works on, and the places of the entries that it multiplies.

use vstd::prelude::*;
use vstd::arithmetic::div_mod::lemma_fundamental_div_mod;
use crate::tensor::lemma_product_grows;

verus! {

/// What a convolution descriptor holds, as plain numbers.
///
/// The first eight fields are the parameters; the last four are the sizes
/// that follow from them.
pub struct ConvolutionModel {
    pub input_rows: nat,
    pub input_cols: nat,
    pub input_channels: nat,
    pub output_channels: nat,
    pub kernel_rows: nat,
    pub kernel_cols: nat,
    pub stride_rows: nat,
    pub stride_cols: nat,
    pub filter_rows: nat,
    pub filter_cols: nat,
    pub input_features: nat,
    pub output_features: nat,
}

/// The places of the three entries that one product of a convolution
/// involves, as plain numbers.
pub struct ProductModel {
    pub output: nat,
    pub input: nat,
    pub filter: nat,
}

/// At its last position along an axis the kernel still lies in the input:
/// position `at` starts at `at * stride`, and the kernel ends at or before
/// the end of the input.
proof fn lemma_last_position(input: nat, kernel: nat, stride: nat, at: nat)
    requires
        1 <= kernel <= input,
        1 <= stride,
        at < kernel_positions(input, kernel, stride),
    ensures
        at * stride + kernel <= input,
{
    let room = input - kernel;
    let steps = room / (stride as int);
    lemma_fundamental_div_mod(room, stride as int);
    assert(at * stride <= steps * stride) by (nonlinear_arith)
        requires
            at <= steps,
            0 <= stride,
    ;
    assert(stride * steps == steps * stride) by (nonlinear_arith);
}

/// A place in a block of `outer` planes of `middle` rows of `inner` entries
/// lies in the block.
proof fn lemma_nested_place(a: nat, outer: nat, b: nat, middle: nat, c: nat, inner: nat)
    requires
        a < outer,
        b < middle,
        c < inner,
    ensures
        b * inner + c < middle * inner,
        a * (middle * inner) + b * inner + c < outer * middle * inner,
{
    assert(b * inner + c < middle * inner) by (nonlinear_arith)
        requires
            b < middle,
            c < inner,
    ;
    assert(a * (middle * inner) + middle * inner <= outer * middle * inner) by (nonlinear_arith)
        requires
            a < outer,
            0 <= middle * inner,
    ;
}

/// The number of kernel positions along one axis: the kernel starts at
/// offset zero and moves by `stride` while it still fits in `input`.
pub open spec fn kernel_positions(input: nat, kernel: nat, stride: nat) -> nat
    recommends
        1 <= kernel <= input,
        1 <= stride,
{
    ((input - kernel) / (stride as int) + 1) as nat
}

impl ConvolutionModel {
    /// The parameters describe a convolution: there is at least one channel
    /// on either side, strides and kernel extents are positive and the kernel
    /// fits in the input.
    pub open spec fn parameters_valid(self) -> bool {
        &&& 1 <= self.input_channels
        &&& 1 <= self.output_channels
        &&& 1 <= self.stride_rows
        &&& 1 <= self.stride_cols
        &&& 1 <= self.kernel_rows <= self.input_rows
        &&& 1 <= self.kernel_cols <= self.input_cols
    }

    /// The model with the given parameters and the sizes that follow from
    /// them.
    pub open spec fn of_parameters(
        input_rows: nat,
        input_cols: nat,
        input_channels: nat,
        output_channels: nat,
        kernel_rows: nat,
        kernel_cols: nat,
        stride_rows: nat,
        stride_cols: nat,
    ) -> ConvolutionModel {
        ConvolutionModel {
            input_rows,
            input_cols,
            input_channels,
            output_channels,
            kernel_rows,
            kernel_cols,
            stride_rows,
            stride_cols,
            filter_rows: kernel_rows * kernel_cols,
            filter_cols: input_channels * output_channels,
            input_features: input_rows * input_cols * input_channels,
            output_features: kernel_positions(input_rows, kernel_rows, stride_rows)
                * kernel_positions(input_cols, kernel_cols, stride_cols) * output_channels,
        }
    }

    /// Every derived size fits in `usize`, and so does the number of
    /// entries of the filters.
    pub open spec fn sizes_fit(self) -> bool {
        &&& self.filter_rows <= usize::MAX
        &&& self.filter_cols <= usize::MAX
        &&& self.filter_rows * self.filter_cols <= usize::MAX
        &&& self.input_features <= usize::MAX
        &&& self.output_features <= usize::MAX
    }

    pub open spec fn output_rows(self) -> nat {
        kernel_positions(self.input_rows, self.kernel_rows, self.stride_rows)
    }

    pub open spec fn output_cols(self) -> nat {
        kernel_positions(self.input_cols, self.kernel_cols, self.stride_cols)
    }

    /// The place of an entry of the output: the images of the channels
    /// follow each other, and in each the rows do.
    pub open spec fn output_place(self, channel: nat, y: nat, x: nat) -> nat {
        channel * (self.output_rows() * self.output_cols()) + y * self.output_cols() + x
    }

    /// The place of an entry of the input: the images of the channels follow
    /// each other, and in each the rows do.
    pub open spec fn input_place(self, channel: nat, y: nat, x: nat) -> nat {
        channel * (self.input_rows * self.input_cols) + y * self.input_cols + x
    }

    /// The place of an entry of the filters: the kernel for each pair of
    /// channels is a column, and in it the rows of the kernel follow each
    /// other. The columns for one output channel stand together.
    pub open spec fn filter_place(self, output_channel: nat, input_channel: nat, ky: nat, kx: nat)
        -> nat {
        (output_channel * self.input_channels + input_channel) * self.filter_rows + ky
            * self.kernel_cols + kx
    }

    /// The places that one product of the convolution involves: the kernel
    /// stands at position `(y, x)` of the output, and its entry `(ky, kx)`
    /// for the two channels is multiplied with the input entry below it.
    pub open spec fn product(
        self,
        output_channel: nat,
        input_channel: nat,
        y: nat,
        x: nat,
        ky: nat,
        kx: nat,
    ) -> ProductModel {
        ProductModel {
            output: self.output_place(output_channel, y, x),
            input: self.input_place(
                input_channel,
                y * self.stride_rows + ky,
                x * self.stride_cols + kx,
            ),
            filter: self.filter_place(output_channel, input_channel, ky, kx),
        }
    }

    /// Whether the six numbers name a product of the convolution.
    pub open spec fn has_product(
        self,
        output_channel: nat,
        input_channel: nat,
        y: nat,
        x: nat,
        ky: nat,
        kx: nat,
    ) -> bool {
        &&& output_channel < self.output_channels
        &&& input_channel < self.input_channels
        &&& y < self.output_rows()
        &&& x < self.output_cols()
        &&& ky < self.kernel_rows
        &&& kx < self.kernel_cols
    }

    /// Every product of a convolution stays inside the three tensors: it
    /// reads an entry of the input and one of the filters and adds to an
    /// entry of the output, each within the size that the descriptor gives.
    pub proof fn lemma_product_in_range(
        self,
        output_channel: nat,
        input_channel: nat,
        y: nat,
        x: nat,
        ky: nat,
        kx: nat,
    )
        requires
            self.consistent(),
            self.has_product(output_channel, input_channel, y, x, ky, kx),
        ensures
            y * self.stride_rows + ky < self.input_rows,
            x * self.stride_cols + kx < self.input_cols,
            self.product(output_channel, input_channel, y, x, ky, kx).output
                < self.output_features,
            self.product(output_channel, input_channel, y, x, ky, kx).input < self.input_features,
            self.product(output_channel, input_channel, y, x, ky, kx).filter < self.filter_rows
                * self.filter_cols,
    {
        lemma_last_position(self.input_rows, self.kernel_rows, self.stride_rows, y);
        lemma_last_position(self.input_cols, self.kernel_cols, self.stride_cols, x);
        lemma_nested_place(
            output_channel,
            self.output_channels,
            y,
            self.output_rows(),
            x,
            self.output_cols(),
        );
        lemma_nested_place(
            input_channel,
            self.input_channels,
            y * self.stride_rows + ky,
            self.input_rows,
            x * self.stride_cols + kx,
            self.input_cols,
        );
        let column = output_channel * self.input_channels + input_channel;
        assert(column < self.input_channels * self.output_channels) by (nonlinear_arith)
            requires
                input_channel < self.input_channels,
                output_channel < self.output_channels,
                column == output_channel * self.input_channels + input_channel,
        ;
        assert(ky * self.kernel_cols + kx < self.kernel_rows * self.kernel_cols)
            by (nonlinear_arith)
            requires
                ky < self.kernel_rows,
                kx < self.kernel_cols,
        ;
        assert(column * self.filter_rows + self.filter_rows <= self.filter_cols * self.filter_rows)
            by (nonlinear_arith)
            requires
                column < self.filter_cols,
        ;
        assert(self.output_rows() * self.output_cols() * self.output_channels
            == self.output_channels * self.output_rows() * self.output_cols()) by (nonlinear_arith);
        assert(self.input_rows * self.input_cols * self.input_channels == self.input_channels
            * self.input_rows * self.input_cols) by (nonlinear_arith);
        assert(self.filter_cols * self.filter_rows == self.filter_rows * self.filter_cols)
            by (nonlinear_arith);
    }

    /// The derived sizes are the ones that the parameters give.
    pub open spec fn consistent(self) -> bool {
        &&& self.parameters_valid()
        &&& self.filter_rows == self.kernel_rows * self.kernel_cols
        &&& self.filter_cols == self.input_channels * self.output_channels
        &&& self.input_features == self.input_rows * self.input_cols * self.input_channels
        &&& self.output_features == self.output_rows() * self.output_cols() * self.output_channels
    }
}

/// The parameters of a convolution over an image of `input_rows` by
/// `input_cols` positions, together with the tensor sizes they imply.
///
/// A value can only be made by [`ConvolutionDescription::new`], which checks
/// the parameters and that every derived size fits in `usize`.
#[derive(Clone, Copy, Debug, PartialEq, Eq, Structural)]
pub struct ConvolutionDescription {
    input_rows: usize,
    input_cols: usize,
    input_channels: usize,
    output_channels: usize,
    kernel_rows: usize,
    kernel_cols: usize,
    stride_rows: usize,
    stride_cols: usize,
    filter_rows: usize,
    filter_cols: usize,
    input_features: usize,
    output_features: usize,
}

/// The places of the three entries that one product of a convolution
/// involves: the entry of the output that it adds to, and the entries of the
/// input and of the filters that it multiplies.
#[derive(Clone, Copy, Debug, PartialEq, Eq, Structural)]
pub struct ConvolutionProduct {
    pub output: usize,
    pub input: usize,
    pub filter: usize,
}

impl View for ConvolutionProduct {
    type V = ProductModel;

    open spec fn view(&self) -> ProductModel {
        ProductModel {
            output: self.output as nat,
            input: self.input as nat,
            filter: self.filter as nat,
        }
    }
}

impl View for ConvolutionDescription {
    type V = ConvolutionModel;

    closed spec fn view(&self) -> ConvolutionModel {
        ConvolutionModel {
            input_rows: self.input_rows as nat,
            input_cols: self.input_cols as nat,
            input_channels: self.input_channels as nat,
            output_channels: self.output_channels as nat,
            kernel_rows: self.kernel_rows as nat,
            kernel_cols: self.kernel_cols as nat,
            stride_rows: self.stride_rows as nat,
            stride_cols: self.stride_cols as nat,
            filter_rows: self.filter_rows as nat,
            filter_cols: self.filter_cols as nat,
            input_features: self.input_features as nat,
            output_features: self.output_features as nat,
        }
    }
}

impl ConvolutionDescription {
    #[verifier::type_invariant]
    spec fn consistent(self) -> bool {
        self@.consistent() && self@.sizes_fit()
    }

    /// The descriptor of a convolution with the given parameters. There is
    /// one exactly if the parameters are valid and every size that follows
    /// from them fits in `usize`.
    pub fn new(
        input_rows: usize,
        input_cols: usize,
        input_channels: usize,
        output_channels: usize,
        kernel_rows: usize,
        kernel_cols: usize,
        stride_rows: usize,
        stride_cols: usize,
    ) -> (desc: Option<ConvolutionDescription>)
        ensures
            ({
                let model = ConvolutionModel::of_parameters(
                    input_rows as nat,
                    input_cols as nat,
                    input_channels as nat,
                    output_channels as nat,
                    kernel_rows as nat,
                    kernel_cols as nat,
                    stride_rows as nat,
                    stride_cols as nat,
                );
                match desc {
                    Some(d) => d@ == model && model.parameters_valid() && model.sizes_fit(),
                    None => !(model.parameters_valid() && model.sizes_fit()),
                }
            }),
    {
        if input_channels < 1 || output_channels < 1 || stride_rows < 1 || stride_cols < 1
            || kernel_rows < 1 || kernel_cols < 1 || kernel_rows > input_rows || kernel_cols
            > input_cols {
            return None;
        }
        let output_rows = (input_rows - kernel_rows) / stride_rows + 1;
        let output_cols = (input_cols - kernel_cols) / stride_cols + 1;
        let filter_rows = kernel_rows.checked_mul(kernel_cols)?;
        let filter_cols = input_channels.checked_mul(output_channels)?;
        if filter_rows.checked_mul(filter_cols).is_none() {
            return None;
        }
        let input_positions = match input_rows.checked_mul(input_cols) {
            Some(n) => n,
            None => {
                proof {
                    lemma_product_grows(input_rows * input_cols, input_channels as int);
                }
                return None;
            },
        };
        let input_features = input_positions.checked_mul(input_channels)?;
        let output_positions = match output_rows.checked_mul(output_cols) {
            Some(n) => n,
            None => {
                proof {
                    lemma_product_grows(output_rows * output_cols, output_channels as int);
                }
                return None;
            },
        };
        let output_features = output_positions.checked_mul(output_channels)?;
        Some(
            ConvolutionDescription {
                input_rows,
                input_cols,
                input_channels,
                output_channels,
                kernel_rows,
                kernel_cols,
                stride_rows,
                stride_cols,
                filter_rows,
                filter_cols,
                input_features,
                output_features,
            },
        )
    }

    /// The rows of the input image.
    pub fn input_rows(&self) -> (n: usize)
        ensures
            n == self@.input_rows,
    {
        self.input_rows
    }

    /// The columns of the input image.
    pub fn input_cols(&self) -> (n: usize)
        ensures
            n == self@.input_cols,
    {
        self.input_cols
    }

    /// The number of channels of the input.
    pub fn input_channels(&self) -> (n: usize)
        ensures
            n == self@.input_channels,
    {
        self.input_channels
    }

    /// The number of channels of the output.
    pub fn output_channels(&self) -> (n: usize)
        ensures
            n == self@.output_channels,
    {
        self.output_channels
    }

    /// The rows of the kernel.
    pub fn kernel_rows(&self) -> (n: usize)
        ensures
            n == self@.kernel_rows,
    {
        self.kernel_rows
    }

    /// The columns of the kernel.
    pub fn kernel_cols(&self) -> (n: usize)
        ensures
            n == self@.kernel_cols,
    {
        self.kernel_cols
    }

    /// The rows by which the kernel moves from one position to the next.
    pub fn stride_rows(&self) -> (n: usize)
        ensures
            n == self@.stride_rows,
    {
        self.stride_rows
    }

    /// The columns by which the kernel moves from one position to the next.
    pub fn stride_cols(&self) -> (n: usize)
        ensures
            n == self@.stride_cols,
    {
        self.stride_cols
    }

    /// The rows of the output image: the positions of the kernel from top to
    /// bottom.
    pub fn output_rows(&self) -> (n: usize)
        ensures
            n == self@.output_rows(),
    {
        proof {
            use_type_invariant(self);
        }
        (self.input_rows - self.kernel_rows) / self.stride_rows + 1
    }

    /// The columns of the output image: the positions of the kernel from
    /// left to right.
    pub fn output_cols(&self) -> (n: usize)
        ensures
            n == self@.output_cols(),
    {
        proof {
            use_type_invariant(self);
        }
        (self.input_cols - self.kernel_cols) / self.stride_cols + 1
    }

    /// The places of the three entries that one product of the convolution
    /// involves. Each lies within the tensor it belongs to.
    pub fn product(
        &self,
        output_channel: usize,
        input_channel: usize,
        y: usize,
        x: usize,
        ky: usize,
        kx: usize,
    ) -> (places: ConvolutionProduct)
        requires
            self@.has_product(
                output_channel as nat,
                input_channel as nat,
                y as nat,
                x as nat,
                ky as nat,
                kx as nat,
            ),
        ensures
            places@ == self@.product(
                output_channel as nat,
                input_channel as nat,
                y as nat,
                x as nat,
                ky as nat,
                kx as nat,
            ),
            places.output < self@.output_features,
            places.input < self@.input_features,
            places.filter < self@.filter_rows * self@.filter_cols,
    {
        let output_rows = self.output_rows();
        let output_cols = self.output_cols();
        proof {
            use_type_invariant(self);
            self@.lemma_product_in_range(
                output_channel as nat,
                input_channel as nat,
                y as nat,
                x as nat,
                ky as nat,
                kx as nat,
            );
            lemma_nested_place(
                output_channel as nat,
                self.output_channels as nat,
                y as nat,
                output_rows as nat,
                x as nat,
                output_cols as nat,
            );
            assert(self.output_channels * output_rows * output_cols == output_rows * output_cols
                * self.output_channels) by (nonlinear_arith);
            lemma_product_grows(output_rows * output_cols, self.output_channels as int);
            assert(0 <= output_channel * (output_rows * output_cols)) by (nonlinear_arith);
            assert(0 <= y * output_cols) by (nonlinear_arith);
        }
        let output = output_channel * (output_rows * output_cols) + y * output_cols + x;
        let row = y * self.stride_rows + ky;
        let col = x * self.stride_cols + kx;
        proof {
            lemma_nested_place(
                input_channel as nat,
                self.input_channels as nat,
                row as nat,
                self.input_rows as nat,
                col as nat,
                self.input_cols as nat,
            );
            assert(self.input_channels * self.input_rows * self.input_cols == self.input_rows
                * self.input_cols * self.input_channels) by (nonlinear_arith);
            lemma_product_grows(self.input_rows * self.input_cols, self.input_channels as int);
            assert(0 <= input_channel * (self.input_rows * self.input_cols)) by (nonlinear_arith);
            assert(0 <= row * self.input_cols) by (nonlinear_arith);
        }
        let input = input_channel * (self.input_rows * self.input_cols) + row * self.input_cols
            + col;
        proof {
            let column = output_channel * self.input_channels + input_channel;
            assert(column < self.input_channels * self.output_channels) by (nonlinear_arith)
                requires
                    input_channel < self.input_channels,
                    output_channel < self.output_channels,
                    column == output_channel * self.input_channels + input_channel,
            ;
            assert(0 <= output_channel * self.input_channels) by (nonlinear_arith);
            assert(0 <= column * self.filter_rows && column * self.filter_rows + self.filter_rows
                <= self.filter_cols * self.filter_rows) by (nonlinear_arith)
                requires
                    0 <= column < self.filter_cols,
                    0 <= self.filter_rows,
            ;
            assert(ky * self.kernel_cols + kx < self.kernel_rows * self.kernel_cols
                && 0 <= ky * self.kernel_cols) by (nonlinear_arith)
                requires
                    ky < self.kernel_rows,
                    kx < self.kernel_cols,
            ;
            assert(self.filter_cols * self.filter_rows == self.filter_rows * self.filter_cols)
                by (nonlinear_arith);
        }
        let filter = (output_channel * self.input_channels + input_channel) * self.filter_rows
            + ky * self.kernel_cols + kx;
        ConvolutionProduct { output, input, filter }
    }

    /// The sizes that a descriptor holds fit in `usize`.
    pub proof fn lemma_sizes_fit(self)
        ensures
            self@.filter_rows <= usize::MAX,
            self@.filter_cols <= usize::MAX,
            self@.input_features <= usize::MAX,
            self@.output_features <= usize::MAX,
    {
    }

    /// The number of entries of the filter tensor.
    pub fn filter_len(&self) -> (len: usize)
        ensures
            len == self@.filter_rows * self@.filter_cols,
            self@.consistent(),
    {
        proof {
            use_type_invariant(self);
        }
        self.filter_rows * self.filter_cols
    }

    /// The rows of the filter tensor: one for each position in the kernel.
    pub fn filter_rows(&self) -> (rows: usize)
        ensures
            rows == self@.filter_rows,
            self@.consistent(),
    {
        proof {
            use_type_invariant(self);
        }
        self.filter_rows
    }

    /// The columns of the filter tensor: one for each pair of an input and
    /// an output channel.
    pub fn filter_cols(&self) -> (cols: usize)
        ensures
            cols == self@.filter_cols,
            self@.consistent(),
    {
        proof {
            use_type_invariant(self);
        }
        self.filter_cols
    }

    /// The rows of the input vector: one for each position and channel.
    pub fn input_features(&self) -> (rows: usize)
        ensures
            rows == self@.input_features,
            self@.consistent(),
    {
        proof {
            use_type_invariant(self);
        }
        self.input_features
    }

    /// The rows of the result: one for each kernel position and output channel.
    pub fn output_features(&self) -> (rows: usize)
        ensures
            rows == self@.output_features,
            self@.consistent(),
    {
        proof {
            use_type_invariant(self);
        }
        self.output_features
    }
}

} // verus!
