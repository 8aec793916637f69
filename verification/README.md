# wuwa_echo_sight

The verified core of WuWa Echo Sight, a local tracker of Wuthering Waves echo substat
rolls: which stat each opened slot gave, at which tier, and what the history says about
what comes next.

`src/` is the library, written in Verus; every function there carries a contract that
Verus proves:

- `category`, `shape`, `shape_laws` — stat categories and zones; shape signatures of stat
  sequences (`[x, y, x]` is `ABA`), hand-written shape guesses and what a shape predicts.
- `state`, `signals`, `reversion`, `streaks`, `transitions`, `tally`, `sums` — the integer
  features and counts behind the analyses: sequence state, interval-signal counts, mean
  reversion series, category streaks and zone flow, the transition matrix.
- `windows`, `cycles`, `buckets`, `bucket_laws`, `runs` — the pattern search bounds and
  window counts, the manual cycle analysis, prediction buckets and their scoped keys, and
  the keys and scores of recorded prediction runs.
- `rules`, `events`, `gameday`, `sqlfilter`, `sync` — what inputs are accepted and with
  which error, how edits merge with stored rows, game days, query filters, and the
  decisions of the local sync endpoint.
- `import`, `archive`, `numtext`, `text` — reading and writing the CSV archive, decimal
  integers, and text helpers.

`app/` is the program around it: the SQLite database, the archive files, the HTTP sync
endpoint, and the floating-point statistics (confidence intervals, χ², ratios), which the
library does not hold.
