# by_env

Pick the implementation of a function by an environment chosen at run time.

```rust
#[derive(Env)]
pub enum Envs { Local, Dev, Qa, #[env(prod)] Prod }

#[env(Envs::Local, Envs::Dev)]
pub fn greeting() -> &'static str { "hello, developer" }

#[env(Envs::Qa, Envs::Prod)]
pub fn greeting() -> &'static str { "hello" }

with(Envs::Dev, || greeting());   // "hello, developer"
greeting();                       // "hello"
```

Layout:

- `src/` is the verified library: the models of the syntax that the macros read, and
  the decisions of the macros over them, each with its contract (run Verus on it).
  `env_attr` resolves and merges environment lists, `naming` names generated items,
  `rewrite` turns methods into free functions, and `function_attr`, `impl_attr` and
  `derive_env` compute what each macro expands to.
- `app/` reads token streams with `syn` into those models, renders the library's plans
  with `quote`, and holds the runtime (`with`, `in_context`, `in_async_context`) that
  keeps the current environment in a thread-local.
- `tests/` runs the library on concrete inputs.
