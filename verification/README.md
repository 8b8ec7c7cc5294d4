# vaultenv

Run programs with secrets from [HashiCorp Vault](https://www.vaultproject.io/).

`vaultenv` reads a secrets file, fetches the values from Vault, and replaces
itself with a program that has them in its environment.

```text
VERSION 2
MOUNT secret

# Optional explicit variable name
DATABASE_URL=production/db#url

# Implicit variable name
production/redis#password
```

## Layout

The library under `src/` decides; it touches neither files nor the network, and
what it does is stated in contracts that [Verus](https://github.com/verus-lang/verus)
proves. The program under `app/` reads, sends and executes what the library
tells it to.

| Module | What it holds |
|--------|---------------|
| `secrets_file`, `secrets_laws` | The format of secrets files, and what holds of it |
| `config` | The options, the address of Vault, environment files |
| `types` | Log levels and what to do with duplicate variables |
| `auth`, `cloud_metadata` | Authentication methods, token files, instance metadata |
| `vault_api` | The client: requests, replies, logins, fetching, resolution |
| `mount_info` | Which engine serves a mount |
| `launch` | The environment and the arguments of the program |
| `address`, `http`, `json`, `string_map`, `text` | URLs, requests and replies, JSON, maps, characters |

Calls into other crates stand behind small functions whose contracts are
believed, not proved; their doc comments say what is claimed of each call.
Functions named `law_` state what holds of several functions together.
