# dressed_trajectory_fields

Recomputes the numerical results for "Dressed Trajectory Fields: Generated
Temporal Nonlocality in Conditioned Stochastic Dynamics".

`src/` is the Verus-verified library: the plans of the commands and the driver
that steps through them, the seed schedule of the random streams, the block
layouts of trajectory matrices (block-diagonal Kronecker products, temporal
range projection, the prior-precision block pattern, the banded SPD fill
order), the shape rules of the pinned inputs, the limited memory of the L-BFGS
optimiser, and SVG text escaping.

`app/` is the program around it: command-line dispatch, file input and output,
random draws, and every floating-point computation (exact moments, dressed
series, baselines, banded Cholesky, plotting).

`tests/` runs the library on concrete values.
