# stm15

A manager for SSH tunnels that runs in a terminal. It keeps the SSH processes of
the configured tunnels alive and shows what became of them. Keys select, start,
stop and restart tunnels and have their ports checked. The library also holds the
form in which a tunnel is configured, the list of hosts to choose from and the
question before a deletion, and how each of them handles its keys; a key of the
list leaves them closed.

`src/` is the verified library. Each type has a mathematical view, and each
function says over those views what it returns or changes:

| modules | what they hold |
| --- | --- |
| `text`, `number`, `edit` | characters, decimal notation, text addressed by bytes |
| `config`, `ssh_config` | the configuration of a tunnel; the hosts of an SSH client configuration |
| `tunnel`, `manager` | a tunnel and the arguments of its SSH process; all tunnels |
| `run_loop`, `health` | how a process is kept alive; how ports are checked |
| `input`, `form`, `picker` | a line of text, the form of a tunnel, the list of hosts |
| `key`, `app`, `action` | keys, what they do, how actions are carried out |
| `screen`, `view` | areas and styles; what is drawn |

Nothing in the library waits, or reads or writes a file. All that it asks of the
system is the home directory, for a key that is given relative to it. What has to
be done outside comes back as a value: a `Command` of the manager, a `LoopAction`
of the task that keeps a tunnel alive, a `HealthAction` of the check, a `Screen`
to be drawn. `app/` does it, and hands the library what happened.

The public proof functions at the end of the modules state what holds of the
library as a whole.
