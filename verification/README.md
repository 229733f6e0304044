# imdb_indexer

Movie search over the IMDb dumps, with posters and metadata from TMDB.

- `src/` is the library: reading the rows of the dumps, the documents of the index, planning
  queries, scoring titles and ranking hits, the caches, what TMDB is asked and what is made of
  its answers, and the replies of the service. Every function states in its contract what it
  returns, and Verus proves it. Properties that relate several functions stand beside them as
  proof functions whose names begin with `law_`.
- `app/` is the service around the library: the HTTP server, the files and databases on disk, the
  requests to IMDb and TMDB, and the scores that are computed with floating point.
- `tests/` runs the library on concrete inputs.

Ratings, scores and weights are held in the library as the 64-bit keys that `tantivy::f64_to_u64`
gives them: the keys are ordered as the numbers are, and `tantivy::u64_to_f64` gives the numbers
back.

What is a letter, what is whitespace and what a lower-case form is goes by the Unicode tables of
the standard library. For ASCII and Russian letters contracts say it in full, in the spec functions
whose names begin with `basic_`; what the tables say of the rest has a name.
